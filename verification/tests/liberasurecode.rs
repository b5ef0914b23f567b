use ecpool::liberasurecode::{Backend, Checksum, LibErasureCoderBuilder};

#[test]
fn builder_identity_uses_default_settings() {
    let builder = LibErasureCoderBuilder::new(4, 2);
    assert_eq!(
        "liberasurecode:JerasureRsCauchy:None:4:2",
        builder.coder_id().as_str()
    );
    assert_eq!(builder.coder_id(), builder.coder_id());
}

#[test]
fn builder_identity_follows_backend_and_checksum() {
    let builder = LibErasureCoderBuilder::new(4, 2)
        .backend(Backend::JerasureRsVand)
        .checksum(Checksum::Crc32);
    assert_eq!(
        "liberasurecode:JerasureRsVand:Crc32:4:2",
        builder.coder_id().as_str()
    );

    let md5 = LibErasureCoderBuilder::new(4, 2).checksum(Checksum::Md5);
    assert_eq!(
        "liberasurecode:JerasureRsCauchy:Md5:4:2",
        md5.coder_id().as_str()
    );
}

#[test]
fn builder_identities_distinguish_configurations() {
    let a = LibErasureCoderBuilder::new(4, 2);
    let b = LibErasureCoderBuilder::new(2, 4);
    let c = LibErasureCoderBuilder::new(4, 2).backend(Backend::JerasureRsVand);
    let d = LibErasureCoderBuilder::new(4, 2).checksum(Checksum::Crc32);
    assert_ne!(a.coder_id(), b.coder_id());
    assert_ne!(a.coder_id(), c.coder_id());
    assert_ne!(a.coder_id(), d.coder_id());
    assert_ne!(c.coder_id(), d.coder_id());
}

#[test]
fn defaults_are_cauchy_and_no_checksum() {
    assert_eq!(Backend::JerasureRsCauchy, Backend::default());
    assert_eq!(Checksum::NoChecksum, Checksum::default());
    assert_eq!("JerasureRsCauchy", Backend::default().name());
    assert_eq!("None", Checksum::default().name());
}

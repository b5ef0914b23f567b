use ecpool::replica::ReplicaCoder;
use ecpool::{BuildCoder, ErasureCode, ErrorKind};

#[test]
fn replica_it_works() {
    let data_fragments = 4;
    let parity_fragments = 2;

    let mut coder = ReplicaCoder::new(data_fragments, parity_fragments);
    let data = vec![0, 1, 2, 3];
    let encoded = coder.encode(&data).unwrap();

    assert_eq!(Some(&data), coder.decode(&encoded[0..]).as_ref().ok());
    assert_eq!(Some(&data), coder.decode(&encoded[1..]).as_ref().ok());
    assert_eq!(Some(&data), coder.decode(&encoded[2..]).as_ref().ok());
    assert_eq!(
        Err(ErrorKind::InvalidInput),
        coder.decode(&encoded[3..]).map_err(|e| *e.kind())
    );
}

#[test]
fn fragment_counts() {
    let coder = ReplicaCoder::new(4, 2);
    assert_eq!(4, coder.data_fragments());
    assert_eq!(2, coder.parity_fragments());
    assert_eq!(6, coder.fragments());
}

#[test]
fn encode_layout_concrete_scenario() {
    let mut coder = ReplicaCoder::new(4, 2);
    let data = vec![0, 1, 2, 3];
    let encoded = coder.encode(&data).unwrap();
    let expected: Vec<Vec<u8>> = vec![
        vec![0, 1, 2, 3],
        vec![],
        vec![],
        vec![],
        vec![0, 1, 2, 3],
        vec![0, 1, 2, 3],
    ];
    assert_eq!(expected, encoded);

    assert_eq!(Ok(&data), coder.decode(&encoded[1..6]).as_ref().map_err(|e| *e.kind()));
    assert_eq!(Ok(&data), coder.decode(&encoded[2..6]).as_ref().map_err(|e| *e.kind()));
    assert_eq!(
        Err(ErrorKind::InvalidInput),
        coder.decode(&encoded[3..6]).map_err(|e| *e.kind())
    );
    assert_eq!(
        Err(ErrorKind::InvalidInput),
        coder.decode(&encoded[4..6]).map_err(|e| *e.kind())
    );
}

#[test]
fn decode_rejects_all_empty_fragments() {
    let mut coder = ReplicaCoder::new(2, 1);
    let fragments: Vec<Vec<u8>> = vec![vec![], vec![], vec![]];
    assert_eq!(
        Err(ErrorKind::CorruptedFragments),
        coder.decode(&fragments[0..]).map_err(|e| *e.kind())
    );
}

#[test]
fn decode_of_empty_payload_encoding_reports_corruption() {
    let mut coder = ReplicaCoder::new(2, 1);
    let encoded = coder.encode(&[]).unwrap();
    assert_eq!(vec![Vec::<u8>::new(), vec![], vec![]], encoded);
    assert_eq!(
        Err(ErrorKind::CorruptedFragments),
        coder.decode(&encoded[0..]).map_err(|e| *e.kind())
    );
}

#[test]
fn reconstruct_restores_each_fragment() {
    let mut coder = ReplicaCoder::new(4, 2);
    let data = vec![9, 8, 7];
    let encoded = coder.encode(&data).unwrap();
    for index in 0..6 {
        let mut remaining = encoded.clone();
        remaining.remove(index);
        let fragment = coder.reconstruct(index, &remaining).unwrap();
        assert_eq!(encoded[index], fragment);
    }
}

#[test]
fn reconstruct_rejects_index_out_of_range() {
    let mut coder = ReplicaCoder::new(4, 2);
    let data = vec![1, 2];
    let encoded = coder.encode(&data).unwrap();
    assert_eq!(
        Err(ErrorKind::Other),
        coder.reconstruct(6, &encoded[0..]).map_err(|e| *e.kind())
    );
}

#[test]
fn coder_id_is_stable_and_distinguishes_configurations() {
    let coder = ReplicaCoder::new(4, 2);
    assert_eq!("replica:4:2", coder.coder_id().as_str());
    assert_eq!(coder.coder_id(), coder.coder_id());
    assert_eq!("replica:4:2", ReplicaCoder::new(4, 2).coder_id().as_str());

    let swapped = ReplicaCoder::new(2, 4);
    assert_eq!("replica:2:4", swapped.coder_id().as_str());
    assert_ne!(coder.coder_id(), swapped.coder_id());

    let wide = ReplicaCoder::new(42, 17);
    assert_eq!("replica:42:17", wide.coder_id().as_str());

    let round = ReplicaCoder::new(10, 205);
    assert_eq!("replica:10:205", round.coder_id().as_str());
}

#[test]
fn decode_accepts_any_large_enough_subset_with_a_copy() {
    let mut coder = ReplicaCoder::new(4, 2);
    let data = vec![11, 22, 33];
    let encoded = coder.encode(&data).unwrap();
    let subset: Vec<Vec<u8>> = vec![
        encoded[5].clone(),
        encoded[1].clone(),
        encoded[2].clone(),
        encoded[3].clone(),
    ];
    assert_eq!(Some(&data), coder.decode(&subset[0..]).as_ref().ok());
}

#[test]
fn build_coder_reproduces_the_configuration() {
    let factory = ReplicaCoder::new(3, 2);
    let mut coder = factory.build_coder().unwrap();
    assert_eq!(3, coder.data_fragments());
    assert_eq!(2, coder.parity_fragments());
    let data = vec![5, 6];
    let encoded = coder.encode(&data).unwrap();
    assert_eq!(5, encoded.len());
}

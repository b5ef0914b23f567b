use ecpool::replica::ReplicaCoder;
use ecpool::{
    bridge_outcome, BuildCoder, CoderCache, ErasureCoderPool, Error, ErrorKind,
};

#[test]
fn pool_core_works() {
    let coder = ErasureCoderPool::new(ReplicaCoder::new(4, 2));
    let mut cache = CoderCache::new();
    let data = vec![0, 1, 2, 3];
    let encoded = coder.encode(&mut cache, &data).unwrap();

    assert_eq!(
        Some(&data),
        coder.decode(&mut cache, &encoded[0..]).as_ref().ok()
    );
    assert_eq!(
        Some(&data),
        coder.decode(&mut cache, &encoded[1..]).as_ref().ok()
    );
    assert_eq!(
        Some(&data),
        coder.decode(&mut cache, &encoded[2..]).as_ref().ok()
    );
    assert_eq!(
        Err(ErrorKind::InvalidInput),
        coder.decode(&mut cache, &encoded[3..]).map_err(|e| *e.kind())
    );
}

#[test]
fn pool_reconstruct_matches_encoding() {
    let coder = ErasureCoderPool::new(ReplicaCoder::new(4, 2));
    let mut cache = CoderCache::new();
    let data = vec![3, 1, 4, 1, 5];
    let encoded = coder.encode(&mut cache, &data).unwrap();
    let mut remaining = encoded.clone();
    remaining.remove(4);
    let fragment = coder.reconstruct(&mut cache, 4, &remaining).unwrap();
    assert_eq!(encoded[4], fragment);
}

#[test]
fn cache_hit_does_not_rebuild_the_coder() {
    let factory = ReplicaCoder::new(4, 2);
    let mut cache = CoderCache::new();
    assert_eq!(0, cache.len());
    assert!(!cache.has_coder(&factory.coder_id()));

    cache.encode(&factory, &[1, 2, 3]).unwrap();
    assert_eq!(1, cache.len());
    assert!(cache.has_coder(&factory.coder_id()));

    cache.encode(&factory, &[4, 5, 6]).unwrap();
    cache.decode(&factory, &[vec![7u8], vec![8u8]]).ok();
    assert_eq!(1, cache.len());

    let other = ReplicaCoder::new(2, 2);
    cache.encode(&other, &[9]).unwrap();
    assert_eq!(2, cache.len());
    assert!(cache.has_coder(&other.coder_id()));
}

#[test]
fn bridge_forwards_completed_results_unchanged() {
    let ok: Result<Result<u32, Error>, String> = Ok(Ok(7));
    assert_eq!(Ok(7), bridge_outcome(ok).map_err(|e| *e.kind()));

    let inner_err: Result<Result<u32, Error>, String> =
        Ok(Err(Error::new(ErrorKind::InvalidInput)));
    assert_eq!(
        Err(ErrorKind::InvalidInput),
        bridge_outcome(inner_err).map_err(|e| *e.kind())
    );
}

#[test]
fn bridge_reports_queue_failures_as_other() {
    let outcome: Result<Result<u32, Error>, String> =
        Err(String::from("task queue is shut down"));
    let e = bridge_outcome(outcome).unwrap_err();
    assert_eq!(ErrorKind::Other, *e.kind());
    assert_eq!("task queue is shut down", e.message().as_str());
}

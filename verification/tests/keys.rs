use fand::smc::cache::{KeyInfoCache, CACHE_SIZE};
use fand::smc::enumerate::fan_key;
use fand::smc::keys::{variant_count, WritableKey, TYPE_FLT, TYPE_UI32, TYPE_UI8};

#[test]
fn get_empty_returns_none() {
    let cache = KeyInfoCache::new();
    assert_eq!(cache.get(0x46306D64), None);
}

#[test]
fn put_and_get() {
    let mut cache = KeyInfoCache::new();
    let fourcc = 0x46306D64;
    cache.put(fourcc, 1, 0x75693820);
    assert_eq!(cache.get(fourcc), Some((1, 0x75693820)));
}

#[test]
fn invalidate_clears() {
    let mut cache = KeyInfoCache::new();
    let fourcc = 0x46306D64;
    cache.put(fourcc, 1, 0x75693820);
    cache.invalidate(fourcc);
    assert_eq!(cache.get(fourcc), None);
}

#[test]
fn collision_overwrites() {
    let mut cache = KeyInfoCache::new();
    let a = 0u32;
    let b = CACHE_SIZE as u32;
    cache.put(a, 1, 100);
    cache.put(b, 4, 200);
    assert_eq!(cache.get(b), Some((4, 200)));
    assert_eq!(cache.get(a), Some((4, 200)));
}

#[test]
fn fan_key_fourcc_is_be() {
    let expected = u32::from_be_bytes([b'F', b'0', b'M', b'n']);
    assert_eq!(fan_key(0, b'M', b'n'), expected);
}

#[test]
fn fan_key_index_encoding() {
    assert_eq!(fan_key(1, b'M', b'x'), u32::from_be_bytes(*b"F1Mx"));
    assert_eq!(fan_key(2, b'A', b'c'), u32::from_be_bytes(*b"F2Ac"));
    assert_eq!(fan_key(0, b'm', b'd'), u32::from_be_bytes(*b"F0md"));
}

#[test]
fn fan_mode_fourcc() {
    let k = WritableKey::fan_mode(0);
    assert_eq!(k.fourcc(), u32::from_be_bytes(*b"F0md"));
    assert_eq!(k.data_type(), TYPE_UI8);
}

#[test]
fn fan_target_fourcc() {
    let k = WritableKey::fan_target(1);
    assert_eq!(k.fourcc(), u32::from_be_bytes(*b"F1Dc"));
    assert_eq!(k.data_type(), TYPE_FLT);
}

#[test]
fn ftst_fourcc() {
    let k = WritableKey::ftst();
    assert_eq!(k.fourcc(), u32::from_be_bytes(*b"Ftst"));
    assert_eq!(k.data_type(), TYPE_UI8);
}

#[test]
fn variant_count_is_three() {
    assert_eq!(variant_count(), 3);
}

#[test]
fn type_constants_are_readable_ascii() {
    assert_eq!(TYPE_FLT.to_be_bytes(), *b"flt ");
    assert_eq!(TYPE_UI8.to_be_bytes(), *b"ui8 ");
    assert_eq!(TYPE_UI32.to_be_bytes(), *b"ui32");
}

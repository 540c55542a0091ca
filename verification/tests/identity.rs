use logos_accounts::binding::{parse_card_vlad_hash, verify_card_vlad_binding};
use logos_accounts::cache::AccountCache;
use logos_accounts::encoding::{decode_bytes_multibase, encode_hex};
use logos_accounts::plog::Vlad;
use logos_accounts::vlad_hash::{vlad_hash, vlad_hash_from_multibase, VLAD_HASH_LEN};
use logos_accounts::Error;

fn vlad(text: &str) -> Vlad {
    Vlad { encoded: text.to_string() }
}

/// A text whose bytes are valid multibase counts as a VLAD here.
fn decoded(text: &str) -> Result<Vlad, String> {
    match decode_bytes_multibase(text) {
        Ok(_) => Ok(vlad(text)),
        Err(e) => Err(e.message()),
    }
}

#[test]
fn binding_hash_is_32_bytes_and_stable() {
    let s = "zSampleVladMultibaseNotReal";
    let h1 = logos_accounts::binding::vlad_hash_from_multibase(s);
    let h2 = logos_accounts::binding::vlad_hash_from_multibase(s);
    assert_eq!(h1, h2);
    assert_eq!(h1.len(), 32);
    assert_ne!(h1, logos_accounts::binding::vlad_hash_from_multibase("other"));
}

#[test]
fn vlad_hash_hash_is_32_bytes_and_stable() {
    let s = "zSampleVladMultibaseNotReal";
    let h1 = vlad_hash_from_multibase(s);
    let h2 = vlad_hash_from_multibase(s);
    assert_eq!(h1, h2);
    assert_eq!(h1.len(), 32);
    assert_ne!(h1, vlad_hash_from_multibase("other"));
}

#[test]
fn key_is_32_bytes_and_stable() {
    let s = "zSampleVladMultibaseNotReal";
    let h1 = vlad_hash_from_multibase(s);
    let h2 = vlad_hash_from_multibase(s);
    assert_eq!(h1, h2);
    assert_eq!(h1.len(), 32);
    assert_ne!(h1, vlad_hash_from_multibase("other"));
    assert_eq!(AccountCache::<u8>::key_from_vlad(&vlad(s)), h1);
}

#[test]
fn vlad_hash_is_sha256_of_the_text() {
    assert_eq!(
        encode_hex(&vlad_hash_from_multibase("hello")),
        "2cf24dba5fb0a30e26e83b2ac5b9e29e1b161e5c1fa7425e73043362938b9824"
    );
    assert_eq!(vlad_hash(&vlad("hello")), vlad_hash_from_multibase("hello"));
    assert_eq!(VLAD_HASH_LEN, 32);
}

#[test]
fn parse_card_vlad_hash_ok_and_err() {
    let hash = vlad_hash_from_multibase("uAQIDBAUGBwgJCgsMDQ4PEA");
    assert_eq!(parse_card_vlad_hash(&hash).unwrap(), hash);
    assert!(matches!(
        parse_card_vlad_hash(&[]),
        Err(Error::CardBindingMismatch(_))
    ));
    assert!(matches!(
        parse_card_vlad_hash(&[0u8; 16]),
        Err(Error::CardBindingMismatch(_))
    ));
}

#[test]
fn card_is_bound_to_one_account() {
    let record = vlad_hash(&vlad("uAQID"));
    assert!(verify_card_vlad_binding(&record, &vlad("uAQID")).is_ok());
    assert_eq!(
        verify_card_vlad_binding(&record, &vlad("uBAUG")).unwrap_err(),
        Error::CardBindingMismatch("VLAD hash on card does not match this p-log".to_string())
    );
    assert_eq!(
        verify_card_vlad_binding(&[1u8; 16], &vlad("uAQID")).unwrap_err(),
        Error::CardBindingMismatch("card public data length 16 (expected 32)".to_string())
    );
}

#[test]
fn insert_get_remove_clear() {
    let mut cache: AccountCache<String> = AccountCache::new();
    assert!(cache.is_empty());

    cache.insert(decoded("uAQID"), "first".to_string()).expect("insert");
    assert_eq!(cache.len(), 1);
    assert!(cache.contains(decoded("uAQID")).unwrap());

    let entry = cache.get(decoded("uAQID")).expect("get");
    assert_eq!(entry, "first");

    cache.remove(decoded("uAQID")).expect("remove");
    assert!(cache.is_empty());
    assert!(matches!(
        cache.get(decoded("uAQID")),
        Err(Error::AccountNotCached(_))
    ));

    cache.insert(decoded("uBAUG"), "second".to_string()).unwrap();
    assert_eq!(cache.clear(), 1);
    assert!(cache.is_empty());
}

#[test]
fn missing_vlad_errors() {
    let cache: AccountCache<u8> = AccountCache::new();
    assert!(cache.get(decoded("not-a-vlad")).is_err());
}

#[test]
fn cached_accounts_are_independent() {
    let mut cache: AccountCache<u8> = AccountCache::new();
    cache.insert(decoded("uAQID"), 1).unwrap();
    cache.insert(decoded("uBAUG"), 2).unwrap();
    cache.insert(decoded("uAQID"), 3).unwrap();
    assert_eq!(cache.len(), 2);
    assert_eq!(*cache.get(decoded("uAQID")).unwrap(), 3);
    assert_eq!(*cache.get(decoded("uBAUG")).unwrap(), 2);
    cache.remove(decoded("uAQID")).unwrap();
    assert_eq!(*cache.get(decoded("uBAUG")).unwrap(), 2);
    assert!(cache.remove(decoded("uAQID")).is_err());
    assert!(!cache.contains(decoded("uAQID")).unwrap());
}

#[test]
fn missing_account_names_the_hash() {
    let cache: AccountCache<u8> = AccountCache::new();
    assert_eq!(
        cache.get(Ok(vlad("hello"))).unwrap_err(),
        Error::AccountNotCached("2cf24dba5fb0a30e".to_string())
    );
    assert_eq!(
        cache.get(Err("no vlad".to_string())).unwrap_err(),
        Error::Encoding("no vlad".to_string())
    );
    assert_eq!(
        AccountCache::<u8>::hash_hex_short(&vlad_hash_from_multibase("hello")),
        "2cf24dba5fb0a30e"
    );
}

#[test]
fn accounts_are_found_by_hash_too() {
    let mut cache: AccountCache<u8> = AccountCache::new();
    let hash = AccountCache::<u8>::key_from_multibase(Ok(vlad("hello"))).unwrap();
    cache.insert_by_hash(hash, 7);
    assert_eq!(*cache.get_by_hash(&hash).unwrap(), 7);
    assert_eq!(*cache.get(Ok(vlad("hello"))).unwrap(), 7);
}

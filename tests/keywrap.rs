use pkcs11_keywrap::keys::{Pkcs11Config, Pkcs11KeyFileObject, Pkcs11KeyType, Pkcs11UriWrapped};
use pkcs11_keywrap::params::KeyParams;
use pkcs11_keywrap::wrapper::{
    add_pub_keys, config_entry, p11conf_from_params, pub_key_entries, DecryptConfig,
    EncryptConfig, KeyWrapError, Pkcs11KeyWrapper, WrapStep, PKCS11_CONFIG, PKCS11_PUBKEYS,
    PKCS11_YAMLS,
};

const URI: &str = "pkcs11:token=test;object=key1?module-name=softhsm2";

fn token_key(uri: &str) -> Pkcs11KeyType {
    Pkcs11KeyType::PKFO(Pkcs11KeyFileObject {
        uriw: Pkcs11UriWrapped::new(
            uri.to_string(),
            vec![("SOFTHSM2_CONF".to_string(), "/tmp/softhsm2.conf".to_string())],
        ),
    })
}

fn config() -> Pkcs11Config {
    Pkcs11Config {
        module_directories: vec!["/usr/lib64/pkcs11/".to_string(), "/usr/lib/softhsm/".to_string()],
        allowed_module_paths: vec!["/usr/lib/softhsm/".to_string()],
    }
}

fn params(entries: Vec<(&str, Vec<Vec<u8>>)>) -> KeyParams {
    let mut p = KeyParams::new();
    for (name, value) in entries {
        p.insert(name.to_string(), value);
    }
    p
}

fn strings(v: &[&str]) -> Vec<String> {
    v.iter().map(|s| s.to_string()).collect()
}

#[test]
fn test_annotation_id() {
    let pkcs11_key_wrapper = Pkcs11KeyWrapper {};
    assert_eq!(
        pkcs11_key_wrapper.annotation_id(),
        "org.opencontainers.image.enc.keys.pkcs11"
    );
}

#[test]
fn test_no_possible_keys() {
    let pkcs11_key_wrapper = Pkcs11KeyWrapper {};
    let dc = DecryptConfig { param: KeyParams::new() };
    assert!(pkcs11_key_wrapper.no_possible_keys(&dc.param, &vec![]));
}

#[test]
fn test_private_keys() {
    let pkcs11_key_wrapper = Pkcs11KeyWrapper {};
    let dc = DecryptConfig { param: KeyParams::new() };
    assert!(pkcs11_key_wrapper.private_keys(&dc.param).is_none());
}

#[test]
fn test_recipients() {
    let pkcs11_key_wrapper = Pkcs11KeyWrapper {};
    let recipients = pkcs11_key_wrapper.recipients("".to_string()).unwrap();
    assert!(recipients.len() == 1);
    assert!(recipients[0] == "[pkcs11]");
}

#[test]
fn params_later_insert_replaces_earlier() {
    let mut p = KeyParams::new();
    p.insert("a".to_string(), vec![b"1".to_vec()]);
    p.insert("b".to_string(), vec![b"2".to_vec()]);
    p.insert("a".to_string(), vec![b"3".to_vec(), b"4".to_vec()]);
    assert_eq!(p.get(&"a".to_string()), Some(&vec![b"3".to_vec(), b"4".to_vec()]));
    assert_eq!(p.get(&"b".to_string()), Some(&vec![b"2".to_vec()]));
    assert_eq!(p.get(&"c".to_string()), None);
    assert!(p.contains_key(&"b".to_string()));
    assert!(!p.contains_key(&"c".to_string()));
}

#[test]
fn private_keys_and_applicability_agree() {
    let kw = Pkcs11KeyWrapper {};
    let with_keys = params(vec![(PKCS11_YAMLS, vec![b"y1".to_vec(), b"y2".to_vec()])]);
    assert_eq!(kw.private_keys(&with_keys), Some(vec![b"y1".to_vec(), b"y2".to_vec()]));
    assert!(!kw.no_possible_keys(&with_keys, &vec![Ok(token_key(URI)), Ok(token_key(URI))]));
    let only_other = vec![
        Ok(Pkcs11KeyType::Other(b"raw".to_vec())),
        Ok(Pkcs11KeyType::Other(b"raw2".to_vec())),
    ];
    assert!(kw.no_possible_keys(&with_keys, &only_other));
    let with_error = vec![Ok(token_key(URI)), Err("bad".to_string())];
    assert!(kw.no_possible_keys(&with_keys, &with_error));

    let empty_list = params(vec![(PKCS11_YAMLS, vec![])]);
    assert_eq!(kw.private_keys(&empty_list), Some(vec![]));
    assert!(kw.no_possible_keys(&empty_list, &vec![]));

    let other_names = params(vec![(PKCS11_PUBKEYS, vec![b"pk".to_vec()])]);
    assert_eq!(kw.private_keys(&other_names), None);
    assert!(kw.no_possible_keys(&other_names, &vec![]));
}

#[test]
fn pub_key_entries_concatenates_without_dedup() {
    let ec = EncryptConfig {
        param: params(vec![
            (PKCS11_YAMLS, vec![b"yaml".to_vec()]),
            (PKCS11_PUBKEYS, vec![b"pem1".to_vec(), b"yaml".to_vec()]),
        ]),
        decrypt_config: None,
    };
    assert_eq!(
        pub_key_entries(&ec),
        vec![b"pem1".to_vec(), b"yaml".to_vec(), b"yaml".to_vec()]
    );
    let none = EncryptConfig { param: KeyParams::new(), decrypt_config: None };
    assert!(pub_key_entries(&none).is_empty());
}

#[test]
fn config_entry_takes_first_blob() {
    let p = params(vec![(PKCS11_CONFIG, vec![b"first".to_vec(), b"second".to_vec()])]);
    assert_eq!(config_entry(&p), Some(&b"first".to_vec()));
    assert_eq!(config_entry(&params(vec![(PKCS11_CONFIG, vec![])])), None);
    assert_eq!(config_entry(&KeyParams::new()), None);
}

#[test]
fn p11conf_absent_is_not_an_error() {
    let r = p11conf_from_params(&KeyParams::new(), Some(Err("ignored".to_string())));
    assert!(matches!(r, Ok(None)));
}

#[test]
fn p11conf_present_takes_parse_outcome() {
    let p = params(vec![(PKCS11_CONFIG, vec![b"cfg".to_vec()])]);
    let ok = p11conf_from_params(&p, Some(Ok(config()))).unwrap().unwrap();
    assert_eq!(ok.module_directories, strings(&["/usr/lib64/pkcs11/", "/usr/lib/softhsm/"]));
    assert_eq!(ok.allowed_module_paths, strings(&["/usr/lib/softhsm/"]));
    let bad = p11conf_from_params(&p, Some(Err("bad yaml".to_string())));
    assert_eq!(bad.err(), Some(KeyWrapError::ConfigParse("bad yaml".to_string())));
    let missing = p11conf_from_params(&p, None);
    assert_eq!(missing.err(), Some(KeyWrapError::ConfigNotParsed));
}

#[test]
fn wrap_without_decrypt_config_fails() {
    let kw = Pkcs11KeyWrapper {};
    let ec = EncryptConfig {
        param: params(vec![(PKCS11_PUBKEYS, vec![b"pem".to_vec()])]),
        decrypt_config: None,
    };
    let r = kw.wrap_keys(&ec, None, vec![Ok(token_key(URI))]);
    assert_eq!(r.err(), Some(KeyWrapError::MissingDecryptConfig));
}

#[test]
fn wrap_with_no_recipients_gives_empty_blob() {
    let kw = Pkcs11KeyWrapper {};
    let ec = EncryptConfig {
        param: KeyParams::new(),
        decrypt_config: Some(DecryptConfig {
            param: params(vec![(PKCS11_CONFIG, vec![b"cfg".to_vec()])]),
        }),
    };
    // The configuration is not looked at when there are no recipients.
    match kw.wrap_keys(&ec, Some(Err("bad yaml".to_string())), vec![]) {
        Ok(WrapStep::Wrapped(b)) => assert!(b.is_empty()),
        _ => panic!("expected an empty blob"),
    }
}

#[test]
fn wrap_applies_decrypt_side_config_to_token_keys() {
    let kw = Pkcs11KeyWrapper {};
    let ec = EncryptConfig {
        param: params(vec![(PKCS11_PUBKEYS, vec![b"pem".to_vec(), b"yaml".to_vec()])]),
        decrypt_config: Some(DecryptConfig {
            param: params(vec![(PKCS11_CONFIG, vec![b"cfg".to_vec()])]),
        }),
    };
    let parsed = vec![Ok(Pkcs11KeyType::Other(b"pem".to_vec())), Ok(token_key(URI))];
    match kw.wrap_keys(&ec, Some(Ok(config())), parsed) {
        Ok(WrapStep::Encrypt(v)) => {
            assert_eq!(v.len(), 2);
            match &v[0] {
                Pkcs11KeyType::Other(b) => assert_eq!(b, &b"pem".to_vec()),
                _ => panic!("expected the raw key unchanged"),
            }
            match &v[1] {
                Pkcs11KeyType::PKFO(p) => {
                    assert_eq!(p.uriw.uri, URI);
                    assert_eq!(p.uriw.module_directories, Some(config().module_directories));
                    assert_eq!(p.uriw.allowed_module_paths, Some(config().allowed_module_paths));
                    assert_eq!(p.uriw.module_env.len(), 1);
                }
                _ => panic!("expected a token key"),
            }
        }
        _ => panic!("expected recipients"),
    }
}

#[test]
fn wrap_with_bad_config_fails() {
    let kw = Pkcs11KeyWrapper {};
    let ec = EncryptConfig {
        param: params(vec![(PKCS11_PUBKEYS, vec![b"pem".to_vec()])]),
        decrypt_config: Some(DecryptConfig {
            param: params(vec![(PKCS11_CONFIG, vec![b"cfg".to_vec()])]),
        }),
    };
    let r = kw.wrap_keys(&ec, Some(Err("bad yaml".to_string())), vec![Ok(token_key(URI))]);
    assert_eq!(r.err(), Some(KeyWrapError::ConfigParse("bad yaml".to_string())));
}

#[test]
fn wrap_with_one_bad_key_fails_whole_call() {
    let kw = Pkcs11KeyWrapper {};
    let ec = EncryptConfig {
        param: params(vec![(PKCS11_PUBKEYS, vec![b"a".to_vec(), b"b".to_vec(), b"c".to_vec()])]),
        decrypt_config: Some(DecryptConfig { param: KeyParams::new() }),
    };
    let parsed = vec![
        Ok(token_key(URI)),
        Err("first bad".to_string()),
        Err("second bad".to_string()),
    ];
    let r = kw.wrap_keys(&ec, None, parsed);
    assert_eq!(r.err(), Some(KeyWrapError::KeyParse("first bad".to_string())));
}

#[test]
fn resolve_public_key_with_default_paths() {
    // pubkeys = [pem], no descriptors, no token configuration.
    let ec = EncryptConfig {
        param: params(vec![(PKCS11_PUBKEYS, vec![b"-----BEGIN PUBLIC KEY-----".to_vec()])]),
        decrypt_config: Some(DecryptConfig { param: KeyParams::new() }),
    };
    assert_eq!(pub_key_entries(&ec).len(), 1);
    let dc = ec.decrypt_config.as_ref().unwrap();
    let keys = add_pub_keys(dc, None, vec![Ok(token_key(URI))]).unwrap();
    assert_eq!(keys.len(), 1);
    match &keys[0] {
        Pkcs11KeyType::PKFO(p) => {
            assert_eq!(p.uriw.module_directories, None);
            assert_eq!(p.uriw.allowed_module_paths, None);
        }
        _ => panic!("expected a token key"),
    }
    let raw = add_pub_keys(dc, None, vec![Ok(Pkcs11KeyType::Other(b"k".to_vec()))]).unwrap();
    assert!(matches!(&raw[0], Pkcs11KeyType::Other(b) if b == &b"k".to_vec()));
}

#[test]
fn add_pub_keys_without_keys_ignores_config() {
    let dc = DecryptConfig { param: params(vec![(PKCS11_CONFIG, vec![b"cfg".to_vec()])]) };
    let r = add_pub_keys(&dc, None, vec![]).unwrap();
    assert!(r.is_empty());
}

#[test]
fn unwrap_without_private_keys_fails() {
    let kw = Pkcs11KeyWrapper {};
    let dc = DecryptConfig { param: KeyParams::new() };
    let r = kw.unwrap_keys(&dc, None, vec![]);
    assert_eq!(r.err(), Some(KeyWrapError::NoPrivateKeys));
    let dc = DecryptConfig { param: params(vec![(PKCS11_YAMLS, vec![])]) };
    assert_eq!(kw.unwrap_keys(&dc, None, vec![]).err(), Some(KeyWrapError::NoPrivateKeys));
}

#[test]
fn unwrap_keeps_only_token_keys() {
    let kw = Pkcs11KeyWrapper {};
    let dc = DecryptConfig {
        param: params(vec![
            (PKCS11_YAMLS, vec![b"a".to_vec(), b"b".to_vec(), b"c".to_vec()]),
            (PKCS11_CONFIG, vec![b"cfg".to_vec()]),
        ]),
    };
    let parsed = vec![
        Ok(Pkcs11KeyType::Other(b"raw".to_vec())),
        Ok(token_key("pkcs11:object=one")),
        Ok(token_key("pkcs11:object=two")),
    ];
    let keys = kw.unwrap_keys(&dc, Some(Ok(config())), parsed).unwrap();
    assert_eq!(keys.len(), 2);
    assert_eq!(keys[0].uriw.uri, "pkcs11:object=one");
    assert_eq!(keys[1].uriw.uri, "pkcs11:object=two");
    for k in &keys {
        assert_eq!(k.uriw.module_directories, Some(config().module_directories));
        assert_eq!(k.uriw.allowed_module_paths, Some(config().allowed_module_paths));
    }
}

#[test]
fn unwrap_with_only_other_keys_fails() {
    let kw = Pkcs11KeyWrapper {};
    let dc = DecryptConfig { param: params(vec![(PKCS11_YAMLS, vec![b"a".to_vec()])]) };
    let r = kw.unwrap_keys(&dc, None, vec![Ok(Pkcs11KeyType::Other(b"raw".to_vec()))]);
    assert_eq!(r.err(), Some(KeyWrapError::NoPrivateKeys));
}

#[test]
fn unwrap_with_one_bad_entry_fails_whole_call() {
    let kw = Pkcs11KeyWrapper {};
    let dc = DecryptConfig {
        param: params(vec![(PKCS11_YAMLS, vec![b"good".to_vec(), b"bad".to_vec()])]),
    };
    let parsed = vec![Ok(token_key(URI)), Err("invalid descriptor".to_string())];
    let r = kw.unwrap_keys(&dc, None, parsed);
    assert_eq!(r.err(), Some(KeyWrapError::KeyParse("invalid descriptor".to_string())));
}

#[test]
fn unwrap_with_bad_config_fails() {
    let kw = Pkcs11KeyWrapper {};
    let dc = DecryptConfig {
        param: params(vec![
            (PKCS11_YAMLS, vec![b"good".to_vec()]),
            (PKCS11_CONFIG, vec![b"cfg".to_vec()]),
        ]),
    };
    let r = kw.unwrap_keys(&dc, Some(Err("bad yaml".to_string())), vec![Ok(token_key(URI))]);
    assert_eq!(r.err(), Some(KeyWrapError::ConfigParse("bad yaml".to_string())));
}

#[test]
fn descriptor_with_matching_config_selects_same_key_on_both_sides() {
    // descriptor-yamls only, with the same token configuration on both sides.
    let kw = Pkcs11KeyWrapper {};
    let yaml = b"pkcs11:\n  uri: pkcs11:object=key1\n".to_vec();
    let ec = EncryptConfig {
        param: params(vec![(PKCS11_YAMLS, vec![yaml.clone()])]),
        decrypt_config: Some(DecryptConfig {
            param: params(vec![
                (PKCS11_YAMLS, vec![yaml.clone()]),
                (PKCS11_CONFIG, vec![b"cfg".to_vec()]),
            ]),
        }),
    };
    let dc = DecryptConfig {
        param: params(vec![
            (PKCS11_YAMLS, vec![yaml.clone()]),
            (PKCS11_CONFIG, vec![b"cfg".to_vec()]),
        ]),
    };
    assert_eq!(pub_key_entries(&ec), vec![yaml.clone()]);
    assert_eq!(kw.private_keys(&dc.param), Some(vec![yaml]));
    let recipients = match kw.wrap_keys(&ec, Some(Ok(config())), vec![Ok(token_key(URI))]) {
        Ok(WrapStep::Encrypt(v)) => v,
        _ => panic!("expected recipients"),
    };
    let keys = kw.unwrap_keys(&dc, Some(Ok(config())), vec![Ok(token_key(URI))]).unwrap();
    assert_eq!(recipients.len(), 1);
    assert_eq!(keys.len(), 1);
    match &recipients[0] {
        Pkcs11KeyType::PKFO(p) => {
            assert_eq!(p.uriw.uri, keys[0].uriw.uri);
            assert_eq!(p.uriw.module_env, keys[0].uriw.module_env);
            assert_eq!(p.uriw.module_directories, keys[0].uriw.module_directories);
            assert_eq!(p.uriw.allowed_module_paths, keys[0].uriw.allowed_module_paths);
            assert_eq!(p.uriw.module_directories, Some(config().module_directories));
        }
        _ => panic!("expected a token key"),
    }
}

#[test]
fn set_paths_replace_defaults() {
    let mut u = Pkcs11UriWrapped::new(URI.to_string(), vec![]);
    u.set_module_directories(&strings(&["/a"]));
    u.set_allowed_module_paths(&strings(&["/b", "/c"]));
    assert_eq!(u.module_directories, Some(strings(&["/a"])));
    assert_eq!(u.allowed_module_paths, Some(strings(&["/b", "/c"])));
    u.set_module_directories(&strings(&["/d"]));
    assert_eq!(u.module_directories, Some(strings(&["/d"])));
}

#[test]
fn applicability_follows_resolution() {
    let kw = Pkcs11KeyWrapper {};
    let p = params(vec![(PKCS11_YAMLS, vec![b"a".to_vec(), b"b".to_vec()])]);
    let tokens = vec![Ok(Pkcs11KeyType::Other(b"raw".to_vec())), Ok(token_key(URI))];
    assert!(kw.is_applicable(&p, &tokens));
    let only_other = vec![
        Ok(Pkcs11KeyType::Other(b"raw".to_vec())),
        Ok(Pkcs11KeyType::Other(b"raw2".to_vec())),
    ];
    assert!(!kw.is_applicable(&p, &only_other));
    let with_error = vec![Ok(token_key(URI)), Err("bad".to_string())];
    assert!(!kw.is_applicable(&p, &with_error));
    assert!(!kw.is_applicable(&params(vec![(PKCS11_YAMLS, vec![])]), &vec![]));
    assert!(!kw.is_applicable(&KeyParams::new(), &vec![]));
    let dc = DecryptConfig { param: p };
    assert!(kw.unwrap_keys(&dc, None, tokens).is_ok());
    assert_eq!(kw.unwrap_keys(&dc, None, only_other).err(), Some(KeyWrapError::NoPrivateKeys));
}

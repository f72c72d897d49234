use vstd::prelude::*;
use crate::keys::{
    conf_view, uri_with_overrides, with_overrides, ConfigModel, KeyModel, Pkcs11Config,
    Pkcs11KeyFileObject, Pkcs11KeyType, UriModel,
};
use crate::params::KeyParams;

verus! {

/// Parameter name of the raw public keys given for encryption.
pub const PKCS11_PUBKEYS: &'static str = "pkcs11-pubkeys";

/// Parameter name of the combined public/private key descriptors.
pub const PKCS11_YAMLS: &'static str = "pkcs11-yamls";

/// Parameter name of the token configuration.
pub const PKCS11_CONFIG: &'static str = "pkcs11-config";

/// The identifier of this strategy in image annotations.
pub const ANNOTATION_ID: &'static str = "org.opencontainers.image.enc.keys.pkcs11";

/// The label that stands for the recipients of a wrapped blob.
pub const RECIPIENT_LABEL: &'static str = "[pkcs11]";

/// Parameters for decryption.
pub struct DecryptConfig {
    pub param: KeyParams,
}

/// Parameters for encryption, with the decryption parameters of the
/// recipients, whose token configuration the recipients' keys must honour.
pub struct EncryptConfig {
    pub param: KeyParams,
    pub decrypt_config: Option<DecryptConfig>,
}

/// Why wrapping or unwrapping could not go ahead.
#[derive(Debug, PartialEq, Eq)]
pub enum KeyWrapError {
    /// The token configuration could not be parsed.
    ConfigParse(String),
    /// A token configuration is named but no parse of its first blob was
    /// supplied (or its list is empty).
    ConfigNotParsed,
    /// A key descriptor could not be parsed.
    KeyParse(String),
    /// Encryption parameters came without decryption parameters.
    MissingDecryptConfig,
    /// No token-backed private key was supplied.
    NoPrivateKeys,
}

/// What to do after the recipients of a wrap are known.
pub enum WrapStep {
    /// Wrapping is finished with this blob.
    Wrapped(Vec<u8>),
    /// The blob is produced by encrypting for these recipients.
    Encrypt(Vec<Pkcs11KeyType>),
}

/// The key-wrapping strategy for token-backed keys. It holds no state.
#[derive(Debug)]
pub struct Pkcs11KeyWrapper {}

/// The contents of a list of blobs.
pub open spec fn blob_views(v: Seq<Vec<u8>>) -> Seq<Seq<u8>> {
    v.map_values(|b: Vec<u8>| b@)
}

/// The blobs stored under `name`, none if the name is absent.
pub open spec fn blobs_of(p: KeyParams, name: Seq<char>) -> Seq<Seq<u8>> {
    match p.spec_get(name) {
        Some(v) => blob_views(v@),
        None => Seq::empty(),
    }
}

/// The key descriptors to parse for encryption: the public keys followed by
/// the combined descriptors.
pub open spec fn spec_pub_key_entries(p: KeyParams) -> Seq<Seq<u8>> {
    blobs_of(p, PKCS11_PUBKEYS@) + blobs_of(p, PKCS11_YAMLS@)
}

/// The private-key descriptors of decryption parameters; none when the name
/// is absent.
pub open spec fn spec_private_keys(p: KeyParams) -> Option<Seq<Seq<u8>>> {
    match p.spec_get(PKCS11_YAMLS@) {
        Some(v) => Some(blob_views(v@)),
        None => None,
    }
}

/// The parameters hold no private-key descriptor: the list is absent or empty.
pub open spec fn spec_no_private_keys(p: KeyParams) -> bool {
    match spec_private_keys(p) {
        Some(v) => v.len() == 0,
        None => true,
    }
}

/// The number of private-key descriptors of the parameters.
pub open spec fn private_key_count(p: KeyParams) -> nat {
    match spec_private_keys(p) {
        Some(v) => v.len(),
        None => 0,
    }
}

/// The strategy applies to the parameters `p`, whose private-key descriptors
/// parsed to `keys`: there are descriptors, all of them parsed, and at least
/// one is token-backed.
pub open spec fn spec_is_applicable(p: KeyParams, keys: Seq<Result<Pkcs11KeyType, String>>) -> bool {
    !spec_no_private_keys(p) && first_error(keys) is None && resolved_private(keys, None).len() > 0
}

/// The blob of the token configuration to parse: the first of its list.
pub open spec fn spec_config_entry(p: KeyParams) -> Option<Seq<u8>> {
    match p.spec_get(PKCS11_CONFIG@) {
        Some(v) => if v@.len() > 0 {
            Some(v@[0]@)
        } else {
            None
        },
        None => None,
    }
}

/// The token configuration of `p`, given what the parser made of its entry.
pub open spec fn spec_p11conf(
    p: KeyParams,
    parsed: Option<Result<Pkcs11Config, String>>,
) -> Result<Option<Pkcs11Config>, KeyWrapError> {
    if p.spec_get(PKCS11_CONFIG@) is None {
        Ok(None)
    } else {
        match parsed {
            Some(Ok(c)) => Ok(Some(c)),
            Some(Err(m)) => Err(KeyWrapError::ConfigParse(m)),
            None => Err(KeyWrapError::ConfigNotParsed),
        }
    }
}

pub open spec fn conf_model(c: Option<Pkcs11Config>) -> Option<ConfigModel> {
    match c {
        Some(c) => Some(c@),
        None => None,
    }
}

/// The message of the first failed parse, if any failed.
pub open spec fn first_error(s: Seq<Result<Pkcs11KeyType, String>>) -> Option<String>
    decreases s.len(),
{
    if s.len() == 0 {
        None
    } else {
        match first_error(s.drop_last()) {
            Some(m) => Some(m),
            None => match s.last() {
                Err(m) => Some(m),
                Ok(_) => None,
            },
        }
    }
}

/// The parsed keys, with the search paths of `conf` applied.
pub open spec fn resolved_public(s: Seq<Result<Pkcs11KeyType, String>>, conf: Option<ConfigModel>) -> Seq<
    KeyModel,
>
    decreases s.len(),
{
    if s.len() == 0 {
        Seq::empty()
    } else {
        let prev = resolved_public(s.drop_last(), conf);
        match s.last() {
            Ok(k) => prev.push(with_overrides(k@, conf)),
            Err(_) => prev,
        }
    }
}

/// The token-backed keys among the parsed ones, in order, with the search
/// paths of `conf` applied; other kinds are left out.
pub open spec fn resolved_private(s: Seq<Result<Pkcs11KeyType, String>>, conf: Option<ConfigModel>) -> Seq<
    UriModel,
>
    decreases s.len(),
{
    if s.len() == 0 {
        Seq::empty()
    } else {
        let prev = resolved_private(s.drop_last(), conf);
        match s.last() {
            Ok(Pkcs11KeyType::PKFO(p)) => prev.push(uri_with_overrides(p.uriw@, conf)),
            _ => prev,
        }
    }
}

pub open spec fn key_views(v: Seq<Pkcs11KeyType>) -> Seq<KeyModel> {
    v.map_values(|k: Pkcs11KeyType| k@)
}

pub open spec fn object_views(v: Seq<Pkcs11KeyFileObject>) -> Seq<UriModel> {
    v.map_values(|o: Pkcs11KeyFileObject| o.uriw@)
}

/// The recipients of a wrap, given what the parsers made of the token
/// configuration of `dc` and of each public key.
pub open spec fn spec_add_pub_keys(
    dc: DecryptConfig,
    parsed_conf: Option<Result<Pkcs11Config, String>>,
    keys: Seq<Result<Pkcs11KeyType, String>>,
) -> Result<Seq<KeyModel>, KeyWrapError> {
    if keys.len() == 0 {
        Ok(Seq::empty())
    } else {
        match spec_p11conf(dc.param, parsed_conf) {
            Err(e) => Err(e),
            Ok(c) => match first_error(keys) {
                Some(m) => Err(KeyWrapError::KeyParse(m)),
                None => Ok(resolved_public(keys, conf_model(c))),
            },
        }
    }
}

/// The private keys of an unwrap, given what the parsers made of the token
/// configuration of `dc` and of each private-key descriptor.
pub open spec fn spec_unwrap_keys(
    dc: DecryptConfig,
    parsed_conf: Option<Result<Pkcs11Config, String>>,
    keys: Seq<Result<Pkcs11KeyType, String>>,
) -> Result<Seq<UriModel>, KeyWrapError> {
    if spec_no_private_keys(dc.param) {
        Err(KeyWrapError::NoPrivateKeys)
    } else {
        match spec_p11conf(dc.param, parsed_conf) {
            Err(e) => Err(e),
            Ok(c) => match first_error(keys) {
                Some(m) => Err(KeyWrapError::KeyParse(m)),
                None => if resolved_private(keys, conf_model(c)).len() == 0 {
                    Err(KeyWrapError::NoPrivateKeys)
                } else {
                    Ok(resolved_private(keys, conf_model(c)))
                },
            },
        }
    }
}

/// An error in a prefix is the first error of the whole list.
proof fn lemma_first_error_prefix(s: Seq<Result<Pkcs11KeyType, String>>, i: int)
    requires
        0 <= i <= s.len(),
        first_error(s.subrange(0, i)) is Some,
    ensures
        first_error(s) == first_error(s.subrange(0, i)),
    decreases s.len(),
{
    if i < s.len() {
        assert(s.drop_last().subrange(0, i) =~= s.subrange(0, i));
        lemma_first_error_prefix(s.drop_last(), i);
    } else {
        assert(s.subrange(0, i) =~= s);
    }
}

/// A list with a failed parse anywhere in it has a first error.
pub proof fn lemma_failed_parse_has_first_error(s: Seq<Result<Pkcs11KeyType, String>>, i: int)
    requires
        0 <= i < s.len(),
        s[i] is Err,
    ensures
        first_error(s) is Some,
    decreases s.len(),
{
    if i < s.len() - 1 {
        lemma_failed_parse_has_first_error(s.drop_last(), i);
    }
}

/// Applies `conf` to each parsed key; the first failed parse fails the
/// whole list.
fn resolve_public(keys: Vec<Result<Pkcs11KeyType, String>>, conf: Option<&Pkcs11Config>) -> (r:
    Result<Vec<Pkcs11KeyType>, KeyWrapError>)
    ensures
        match first_error(keys@) {
            Some(m) => r matches Err(KeyWrapError::KeyParse(e)) && e == m,
            None => r is Ok && key_views(r->Ok_0@) == resolved_public(keys@, conf_view(conf)),
        },
{
    let ghost orig = keys@;
    let mut rest = keys;
    let mut out: Vec<Pkcs11KeyType> = Vec::new();
    let mut i: usize = 0;
    let n = rest.len();
    while i < n
        invariant
            n == orig.len(),
            orig == keys@,
            i <= n,
            rest@ == orig.subrange(i as int, n as int),
            first_error(orig.subrange(0, i as int)) is None,
            key_views(out@) == resolved_public(orig.subrange(0, i as int), conf_view(conf)),
        decreases n - i,
    {
        let k = rest.remove(0);
        assert(k == orig[i as int]);
        assert(orig.subrange(0, i + 1).drop_last() =~= orig.subrange(0, i as int));
        assert(rest@ =~= orig.subrange(i + 1, n as int));
        match k {
            Ok(k) => {
                let k = k.with_config(conf);
                let ghost prev = out@;
                out.push(k);
                assert(key_views(out@) =~= key_views(prev).push(k@));
            },
            Err(m) => {
                proof {
                    assert(orig.subrange(0, i + 1).last() == orig[i as int]);
                    assert(first_error(orig.subrange(0, i + 1)) == Some(m));
                    lemma_first_error_prefix(orig, i + 1);
                }
                let r: Result<Vec<Pkcs11KeyType>, KeyWrapError> = Err(KeyWrapError::KeyParse(m));

                return r;
            },
        }
        i = i + 1;
    }
    assert(orig.subrange(0, n as int) =~= orig);
    Ok(out)
}

/// Keeps the token-backed keys among the parsed ones and applies `conf` to
/// them; the first failed parse fails the whole list.
fn resolve_private(keys: Vec<Result<Pkcs11KeyType, String>>, conf: Option<&Pkcs11Config>) -> (r:
    Result<Vec<Pkcs11KeyFileObject>, KeyWrapError>)
    ensures
        match first_error(keys@) {
            Some(m) => r matches Err(KeyWrapError::KeyParse(e)) && e == m,
            None => r is Ok && object_views(r->Ok_0@) == resolved_private(keys@, conf_view(conf)),
        },
{
    let ghost orig = keys@;
    let mut rest = keys;
    let mut out: Vec<Pkcs11KeyFileObject> = Vec::new();
    let mut i: usize = 0;
    let n = rest.len();
    while i < n
        invariant
            n == orig.len(),
            orig == keys@,
            i <= n,
            rest@ == orig.subrange(i as int, n as int),
            first_error(orig.subrange(0, i as int)) is None,
            object_views(out@) == resolved_private(orig.subrange(0, i as int), conf_view(conf)),
        decreases n - i,
    {
        let k = rest.remove(0);
        assert(k == orig[i as int]);
        assert(orig.subrange(0, i + 1).drop_last() =~= orig.subrange(0, i as int));
        assert(rest@ =~= orig.subrange(i + 1, n as int));
        match k {
            Ok(Pkcs11KeyType::PKFO(mut p)) => {
                p.apply_config(conf);
                let ghost prev = out@;
                out.push(p);
                assert(object_views(out@) =~= object_views(prev).push(p.uriw@));
            },
            Ok(Pkcs11KeyType::Other(_)) => {},
            Err(m) => {
                proof {
                    assert(orig.subrange(0, i + 1).last() == orig[i as int]);
                    assert(first_error(orig.subrange(0, i + 1)) == Some(m));
                    lemma_first_error_prefix(orig, i + 1);
                }
                return Err(KeyWrapError::KeyParse(m));
            },
        }
        i = i + 1;
    }
    assert(orig.subrange(0, n as int) =~= orig);
    Ok(out)
}

/// A copy of a list of blobs.
fn copy_blobs(v: &Vec<Vec<u8>>) -> (r: Vec<Vec<u8>>)
    ensures
        blob_views(r@) == blob_views(v@),
{
    let mut r: Vec<Vec<u8>> = Vec::new();
    let mut i: usize = 0;
    while i < v.len()
        invariant
            i <= v@.len(),
            blob_views(r@) == blob_views(v@).subrange(0, i as int),
        decreases v@.len() - i,
    {
        let b = v[i].clone();
        assert(b@ =~= v@[i as int]@);
        let ghost prev = r@;
        r.push(b);
        assert(blob_views(r@) =~= blob_views(prev).push(b@));
        assert(blob_views(r@) =~= blob_views(v@).subrange(0, i + 1));
        i = i + 1;
    }
    assert(blob_views(v@).subrange(0, v@.len() as int) =~= blob_views(v@));
    r
}

/// Appends a copy of each blob of `src` to `dst`.
fn append_blobs(dst: &mut Vec<Vec<u8>>, src: &Vec<Vec<u8>>)
    ensures
        blob_views(final(dst)@) == blob_views(old(dst)@) + blob_views(src@),
{
    let ghost start = blob_views(dst@);
    let mut i: usize = 0;
    while i < src.len()
        invariant
            i <= src@.len(),
            blob_views(dst@) == start + blob_views(src@).subrange(0, i as int),
        decreases src@.len() - i,
    {
        let b = src[i].clone();
        assert(b@ =~= src@[i as int]@);
        let ghost prev = dst@;
        dst.push(b);
        assert(blob_views(dst@) =~= blob_views(prev).push(b@));
        assert(blob_views(dst@) =~= start + blob_views(src@).subrange(0, i + 1));
        i = i + 1;
    }
    assert(blob_views(src@).subrange(0, src@.len() as int) =~= blob_views(src@));
}

/// The key descriptors to parse for encryption: the public keys followed by
/// the combined descriptors, all of them, in order.
pub fn pub_key_entries(ec: &EncryptConfig) -> (r: Vec<Vec<u8>>)
    ensures
        blob_views(r@) == spec_pub_key_entries(ec.param),
{
    let mut pubkeys: Vec<Vec<u8>> = Vec::new();
    if let Some(pks) = ec.param.get(&PKCS11_PUBKEYS.to_owned()) {
        append_blobs(&mut pubkeys, pks);
    }
    assert(blob_views(pubkeys@) =~= blobs_of(ec.param, PKCS11_PUBKEYS@));
    if let Some(yamls) = ec.param.get(&PKCS11_YAMLS.to_owned()) {
        append_blobs(&mut pubkeys, yamls);
    }
    assert(blob_views(pubkeys@) =~= spec_pub_key_entries(ec.param));
    pubkeys
}

/// The blob of the token configuration, to be parsed: the first of the
/// list named by `PKCS11_CONFIG`.
pub fn config_entry(dcparameters: &KeyParams) -> (r: Option<&Vec<u8>>)
    ensures
        match r {
            Some(b) => spec_config_entry(*dcparameters) == Some(b@),
            None => spec_config_entry(*dcparameters) is None,
        },
{
    match dcparameters.get(&PKCS11_CONFIG.to_owned()) {
        Some(v) => if v.len() > 0 {
            Some(&v[0])
        } else {
            None
        },
        None => None,
    }
}

/// The token configuration of the parameters: none when they name none;
/// otherwise the parser's outcome `parsed` on the blob of `config_entry`.
pub fn p11conf_from_params(
    dcparameters: &KeyParams,
    parsed: Option<Result<Pkcs11Config, String>>,
) -> (r: Result<Option<Pkcs11Config>, KeyWrapError>)
    ensures
        r == spec_p11conf(*dcparameters, parsed),
{
    if dcparameters.contains_key(&PKCS11_CONFIG.to_owned()) {
        match parsed {
            Some(Ok(c)) => Ok(Some(c)),
            Some(Err(m)) => Err(KeyWrapError::ConfigParse(m)),
            None => Err(KeyWrapError::ConfigNotParsed),
        }
    } else {
        Ok(None)
    }
}

/// The recipients of a wrap: each parsed public key, with the search paths of
/// the token configuration of `dc` applied to the token-backed ones. With no
/// public keys there are no recipients and the configuration is not looked
/// at; otherwise a bad configuration, then the first failed parse, fails the
/// whole call.
pub fn add_pub_keys(
    dc: &DecryptConfig,
    parsed_conf: Option<Result<Pkcs11Config, String>>,
    pubkeys: Vec<Result<Pkcs11KeyType, String>>,
) -> (r: Result<Vec<Pkcs11KeyType>, KeyWrapError>)
    ensures
        match spec_add_pub_keys(*dc, parsed_conf, pubkeys@) {
            Ok(s) => r is Ok && key_views(r->Ok_0@) == s,
            Err(e) => r matches Err(e2) && e2 == e,
        },
{
    if pubkeys.len() == 0 {
        let r: Vec<Pkcs11KeyType> = Vec::new();
        assert(key_views(r@) =~= Seq::empty());
        return Ok(r);
    }
    let p11conf_opt = p11conf_from_params(&dc.param, parsed_conf)?;
    resolve_public(pubkeys, p11conf_opt.as_ref())
}

/// Whether the parameters hold no private-key descriptor at all.
fn no_descriptors(dcparameters: &KeyParams) -> (r: bool)
    ensures
        r == spec_no_private_keys(*dcparameters),
{
    match dcparameters.get(&PKCS11_YAMLS.to_owned()) {
        Some(v) => v.len() == 0,
        None => true,
    }
}

impl Pkcs11KeyWrapper {
    /// Decides the wrap of the options data for the recipients given by `ec`.
    ///
    /// `parsed_conf` is the outcome of parsing the token configuration of the
    /// decryption parameters of `ec`, and `parsed_keys` the outcome of parsing
    /// each entry of `pub_key_entries(ec)`. With no recipients the wrap is
    /// finished with an empty blob, which tells the caller that this strategy
    /// does not apply; otherwise the options data are to be encrypted for the
    /// recipients returned.
    pub fn wrap_keys(
        &self,
        ec: &EncryptConfig,
        parsed_conf: Option<Result<Pkcs11Config, String>>,
        parsed_keys: Vec<Result<Pkcs11KeyType, String>>,
    ) -> (r: Result<WrapStep, KeyWrapError>)
        requires
            parsed_keys@.len() == spec_pub_key_entries(ec.param).len(),
        ensures
            match ec.decrypt_config {
                None => r matches Err(KeyWrapError::MissingDecryptConfig),
                Some(dc) => match spec_add_pub_keys(dc, parsed_conf, parsed_keys@) {
                    Err(e) => r matches Err(e2) && e2 == e,
                    Ok(s) => if s.len() == 0 {
                        r matches Ok(WrapStep::Wrapped(b)) && b@.len() == 0
                    } else {
                        r matches Ok(WrapStep::Encrypt(v)) && key_views(v@) == s
                    },
                },
            },
    {
        let dc = match ec.decrypt_config.as_ref() {
            Some(x) => x,
            None => return Err(KeyWrapError::MissingDecryptConfig),
        };
        let pkcs11_recipients = add_pub_keys(dc, parsed_conf, parsed_keys)?;
        if pkcs11_recipients.len() == 0 {
            return Ok(WrapStep::Wrapped(Vec::new()));
        }
        Ok(WrapStep::Encrypt(pkcs11_recipients))
    }

    /// Decides the private keys that unwrap for the parameters `dc`: the
    /// token-backed keys among the parsed descriptors, with the search paths of
    /// the token configuration applied. The token primitive then tries them in
    /// turn on the wrapped blob.
    ///
    /// `parsed_conf` is the outcome of parsing `config_entry(&dc.param)`, and
    /// `parsed_keys` the outcome of parsing each entry of `private_keys`.
    pub fn unwrap_keys(
        &self,
        dc: &DecryptConfig,
        parsed_conf: Option<Result<Pkcs11Config, String>>,
        parsed_keys: Vec<Result<Pkcs11KeyType, String>>,
    ) -> (r: Result<Vec<Pkcs11KeyFileObject>, KeyWrapError>)
        requires
            parsed_keys@.len() == private_key_count(dc.param),
        ensures
            match spec_unwrap_keys(*dc, parsed_conf, parsed_keys@) {
                Ok(s) => r is Ok && object_views(r->Ok_0@) == s,
                Err(e) => r matches Err(e2) && e2 == e,
            },
    {
        if no_descriptors(&dc.param) {
            return Err(KeyWrapError::NoPrivateKeys);
        }
        let p11conf_opt = p11conf_from_params(&dc.param, parsed_conf)?;
        let pkcs11_keys = resolve_private(parsed_keys, p11conf_opt.as_ref())?;
        if pkcs11_keys.len() == 0 {
            return Err(KeyWrapError::NoPrivateKeys);
        }
        Ok(pkcs11_keys)
    }

    /// The identifier of this strategy in image annotations.
    pub fn annotation_id(&self) -> (r: String)
        ensures
            r@ == ANNOTATION_ID@,
    {
        ANNOTATION_ID.to_owned()
    }

    /// Whether the parameters supply no private key that this strategy can
    /// use, given what the parser made of each of their private-key
    /// descriptors: the exact negation of `is_applicable`.
    pub fn no_possible_keys(
        &self,
        dcparameters: &KeyParams,
        parsed_keys: &Vec<Result<Pkcs11KeyType, String>>,
    ) -> (r: bool)
        ensures
            r == !spec_is_applicable(*dcparameters, parsed_keys@),
    {
        !self.is_applicable(dcparameters, parsed_keys)
    }

    /// Whether unwrapping with the parameters `dcparameters` can go ahead, given
    /// what the parser made of each of their private-key descriptors: there
    /// are descriptors, all of them parsed, and at least one is token-backed.
    pub fn is_applicable(
        &self,
        dcparameters: &KeyParams,
        parsed_keys: &Vec<Result<Pkcs11KeyType, String>>,
    ) -> (r: bool)
        ensures
            r == spec_is_applicable(*dcparameters, parsed_keys@),
    {
        if no_descriptors(dcparameters) {
            return false;
        }
        let ghost s = parsed_keys@;
        let mut found = false;
        let mut i: usize = 0;
        while i < parsed_keys.len()
            invariant
                s == parsed_keys@,
                i <= s.len(),
                first_error(s.subrange(0, i as int)) is None,
                found == (resolved_private(s.subrange(0, i as int), None).len() > 0),
            decreases s.len() - i,
        {
            assert(s.subrange(0, i + 1).drop_last() =~= s.subrange(0, i as int));
            assert(s.subrange(0, i + 1).last() == s[i as int]);
            match &parsed_keys[i] {
                Ok(Pkcs11KeyType::PKFO(_)) => {
                    found = true;
                },
                Ok(Pkcs11KeyType::Other(_)) => {},
                Err(_) => {
                    proof {
                        lemma_first_error_prefix(s, i + 1);
                    }
                    return false;
                },
            }
            i = i + 1;
        }
        assert(s.subrange(0, s.len() as int) =~= s);
        found
    }

    /// The private-key descriptors of the parameters, as given; none when the
    /// parameters do not name any.
    pub fn private_keys(&self, dcparameters: &KeyParams) -> (r: Option<Vec<Vec<u8>>>)
        ensures
            match r {
                Some(v) => spec_private_keys(*dcparameters) == Some(blob_views(v@)),
                None => spec_private_keys(*dcparameters) is None,
            },
    {
        match dcparameters.get(&PKCS11_YAMLS.to_owned()) {
            Some(v) => Some(copy_blobs(v)),
            None => None,
        }
    }

    /// The recipients of a wrapped blob: a wrapped blob does not name them, so
    /// this is always the single label `[pkcs11]`.
    pub fn recipients(&self, _packet: String) -> (r: Option<Vec<String>>)
        ensures
            r matches Some(v) && v@.len() == 1 && v@[0]@ == RECIPIENT_LABEL@,
    {
        let mut v: Vec<String> = Vec::new();
        v.push(RECIPIENT_LABEL.to_owned());
        Some(v)
    }
}

/// The token URIs among key models, in order.
pub open spec fn token_uris(s: Seq<KeyModel>) -> Seq<UriModel>
    decreases s.len(),
{
    if s.len() == 0 {
        Seq::empty()
    } else {
        let prev = token_uris(s.drop_last());
        match s.last() {
            KeyModel::Token(u) => prev.push(u),
            KeyModel::Other(_) => prev,
        }
    }
}

/// A token URI carries exactly the search paths of `c`.
pub open spec fn carries_config(u: UriModel, c: ConfigModel) -> bool {
    u.module_directories == Some(c.module_directories) && u.allowed_module_paths == Some(
        c.allowed_module_paths,
    )
}

/// Once a token configuration is given, every token-backed key that either
/// resolution produces carries exactly its search paths.
pub proof fn lemma_resolution_carries_config(
    keys: Seq<Result<Pkcs11KeyType, String>>,
    c: ConfigModel,
)
    ensures
        forall|i: int|
            0 <= i < resolved_public(keys, Some(c)).len() ==> (#[trigger] resolved_public(
                keys,
                Some(c),
            )[i] matches KeyModel::Token(u) ==> carries_config(u, c)),
        forall|i: int|
            0 <= i < resolved_private(keys, Some(c)).len() ==> carries_config(
                #[trigger] resolved_private(keys, Some(c))[i],
                c,
            ),
    decreases keys.len(),
{
    if keys.len() > 0 {
        lemma_resolution_carries_config(keys.drop_last(), c);
        let prev = resolved_private(keys.drop_last(), Some(c));
        assert forall|i: int|
            0 <= i < resolved_private(keys, Some(c)).len() implies carries_config(
            #[trigger] resolved_private(keys, Some(c))[i],
            c,
        ) by {
            if i < prev.len() {
                assert(prev[i] == resolved_private(keys, Some(c))[i]);
            }
        }
    }
}

/// The keys that an unwrap tries are the token-backed keys that a wrap
/// encrypts for, when both are given the same parsed descriptors and the same
/// token configuration.
pub proof fn lemma_wrap_unwrap_same_tokens(
    keys: Seq<Result<Pkcs11KeyType, String>>,
    conf: Option<ConfigModel>,
)
    ensures
        token_uris(resolved_public(keys, conf)) == resolved_private(keys, conf),
    decreases keys.len(),
{
    if keys.len() > 0 {
        lemma_wrap_unwrap_same_tokens(keys.drop_last(), conf);
        let prev = resolved_public(keys.drop_last(), conf);
        match keys.last() {
            Ok(k) => {
                assert(prev.push(with_overrides(k@, conf)).drop_last() =~= prev);
            },
            Err(_) => {},
        }
    }
}

/// How many token-backed keys an unwrap keeps does not depend on the token
/// configuration.
proof fn lemma_resolved_private_len(
    s: Seq<Result<Pkcs11KeyType, String>>,
    c1: Option<ConfigModel>,
    c2: Option<ConfigModel>,
)
    ensures
        resolved_private(s, c1).len() == resolved_private(s, c2).len(),
    decreases s.len(),
{
    if s.len() > 0 {
        lemma_resolved_private_len(s.drop_last(), c1, c2);
    }
}

/// With a usable token configuration, the strategy applies to decryption
/// parameters exactly when unwrapping with them yields keys.
pub proof fn lemma_applicability(
    dc: DecryptConfig,
    parsed_conf: Option<Result<Pkcs11Config, String>>,
    keys: Seq<Result<Pkcs11KeyType, String>>,
)
    requires
        spec_p11conf(dc.param, parsed_conf) is Ok,
    ensures
        spec_is_applicable(dc.param, keys) <==> spec_unwrap_keys(dc, parsed_conf, keys) is Ok,
{
    let c = spec_p11conf(dc.param, parsed_conf)->Ok_0;
    lemma_resolved_private_len(keys, conf_model(c), None);
}

/// A private-key entry that fails to parse fails the whole unwrap with a
/// parse error, whatever the other entries hold.
pub proof fn lemma_malformed_private_key_fails_unwrap(
    dc: DecryptConfig,
    parsed_conf: Option<Result<Pkcs11Config, String>>,
    keys: Seq<Result<Pkcs11KeyType, String>>,
    i: int,
)
    requires
        !spec_no_private_keys(dc.param),
        spec_p11conf(dc.param, parsed_conf) is Ok,
        0 <= i < keys.len(),
        keys[i] is Err,
    ensures
        spec_unwrap_keys(dc, parsed_conf, keys) matches Err(KeyWrapError::KeyParse(_)),
{
    lemma_failed_parse_has_first_error(keys, i);
}

/// A public-key entry that fails to parse fails the whole wrap with a parse
/// error, whatever the other entries hold.
pub proof fn lemma_malformed_public_key_fails_wrap(
    dc: DecryptConfig,
    parsed_conf: Option<Result<Pkcs11Config, String>>,
    keys: Seq<Result<Pkcs11KeyType, String>>,
    i: int,
)
    requires
        spec_p11conf(dc.param, parsed_conf) is Ok,
        0 <= i < keys.len(),
        keys[i] is Err,
    ensures
        spec_add_pub_keys(dc, parsed_conf, keys) matches Err(KeyWrapError::KeyParse(_)),
{
    lemma_failed_parse_has_first_error(keys, i);
}

} // verus!

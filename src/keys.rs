use vstd::prelude::*;

verus! {

/// Search-path overrides for the module that drives a token: candidate
/// module directories and the allow-list of module paths.
pub struct Pkcs11Config {
    pub module_directories: Vec<String>,
    pub allowed_module_paths: Vec<String>,
}

/// The two path lists of a token configuration.
pub struct ConfigModel {
    pub module_directories: Seq<String>,
    pub allowed_module_paths: Seq<String>,
}

impl View for Pkcs11Config {
    type V = ConfigModel;

    open spec fn view(&self) -> ConfigModel {
        ConfigModel {
            module_directories: self.module_directories@,
            allowed_module_paths: self.allowed_module_paths@,
        }
    }
}

/// A token URI together with the environment for the module that serves it
/// and the search paths used to find that module. A path list left at
/// `None` means that the module loader uses its own defaults.
pub struct Pkcs11UriWrapped {
    pub uri: String,
    pub module_env: Vec<(String, String)>,
    pub module_directories: Option<Vec<String>>,
    pub allowed_module_paths: Option<Vec<String>>,
}

/// What a token URI wrapper holds.
pub struct UriModel {
    pub uri: Seq<char>,
    pub module_env: Seq<(String, String)>,
    pub module_directories: Option<Seq<String>>,
    pub allowed_module_paths: Option<Seq<String>>,
}

pub open spec fn opt_view(v: Option<Vec<String>>) -> Option<Seq<String>> {
    match v {
        Some(v) => Some(v@),
        None => None,
    }
}

impl View for Pkcs11UriWrapped {
    type V = UriModel;

    open spec fn view(&self) -> UriModel {
        UriModel {
            uri: self.uri@,
            module_env: self.module_env@,
            module_directories: opt_view(self.module_directories),
            allowed_module_paths: opt_view(self.allowed_module_paths),
        }
    }
}

/// A copy of a list of strings.
fn copy_strings(v: &Vec<String>) -> (r: Vec<String>)
    ensures
        r@ == v@,
{
    let mut r: Vec<String> = Vec::new();
    let mut i: usize = 0;
    while i < v.len()
        invariant
            i <= v@.len(),
            r@ == v@.subrange(0, i as int),
        decreases v@.len() - i,
    {
        r.push(v[i].clone());
        i = i + 1;
    }
    assert(v@.subrange(0, v@.len() as int) =~= v@);
    r
}

impl Pkcs11UriWrapped {
    /// A wrapper for `uri` whose search paths are the module loader's defaults.
    pub fn new(uri: String, module_env: Vec<(String, String)>) -> (r: Pkcs11UriWrapped)
        ensures
            r@ == (UriModel {
                uri: uri@,
                module_env: module_env@,
                module_directories: None,
                allowed_module_paths: None,
            }),
    {
        Pkcs11UriWrapped { uri, module_env, module_directories: None, allowed_module_paths: None }
    }

    /// Replaces the module directories with `dirs`.
    pub fn set_module_directories(&mut self, dirs: &Vec<String>)
        ensures
            final(self)@ == (UriModel { module_directories: Some(dirs@), ..old(self)@ }),
    {
        self.module_directories = Some(copy_strings(dirs));
    }

    /// Replaces the allowed module paths with `paths`.
    pub fn set_allowed_module_paths(&mut self, paths: &Vec<String>)
        ensures
            final(self)@ == (UriModel { allowed_module_paths: Some(paths@), ..old(self)@ }),
    {
        self.allowed_module_paths = Some(copy_strings(paths));
    }
}

/// A key that lives on a token, addressed through a URI wrapper.
pub struct Pkcs11KeyFileObject {
    pub uriw: Pkcs11UriWrapped,
}

/// A parsed key descriptor: a token-backed key, or another kind of key
/// (raw key material) that token wrapping passes through untouched.
pub enum Pkcs11KeyType {
    PKFO(Pkcs11KeyFileObject),
    Other(Vec<u8>),
}

/// What a parsed key descriptor holds.
pub enum KeyModel {
    Token(UriModel),
    Other(Seq<u8>),
}

impl View for Pkcs11KeyType {
    type V = KeyModel;

    open spec fn view(&self) -> KeyModel {
        match self {
            Pkcs11KeyType::PKFO(p) => KeyModel::Token(p.uriw@),
            Pkcs11KeyType::Other(b) => KeyModel::Other(b@),
        }
    }
}

/// `u` with the search paths of `conf`, where one is given; the paths of
/// `conf` take the place of whatever `u` had.
pub open spec fn uri_with_overrides(u: UriModel, conf: Option<ConfigModel>) -> UriModel {
    match conf {
        Some(c) => UriModel {
            module_directories: Some(c.module_directories),
            allowed_module_paths: Some(c.allowed_module_paths),
            ..u
        },
        None => u,
    }
}

/// `k` with the search paths of `conf` applied where it is token-backed.
pub open spec fn with_overrides(k: KeyModel, conf: Option<ConfigModel>) -> KeyModel {
    match k {
        KeyModel::Token(u) => KeyModel::Token(uri_with_overrides(u, conf)),
        KeyModel::Other(b) => KeyModel::Other(b),
    }
}

pub open spec fn conf_view(conf: Option<&Pkcs11Config>) -> Option<ConfigModel> {
    match conf {
        Some(c) => Some(c@),
        None => None,
    }
}

impl Pkcs11KeyFileObject {
    /// Applies the search paths of `conf`, if one is given, to this key.
    pub fn apply_config(&mut self, conf: Option<&Pkcs11Config>)
        ensures
            final(self).uriw@ == uri_with_overrides(old(self).uriw@, conf_view(conf)),
    {
        if let Some(c) = conf {
            self.uriw.set_module_directories(&c.module_directories);
            self.uriw.set_allowed_module_paths(&c.allowed_module_paths);
        }
    }
}

impl Pkcs11KeyType {
    /// This key with the search paths of `conf` applied where it is
    /// token-backed; other kinds of key come back unchanged.
    pub fn with_config(self, conf: Option<&Pkcs11Config>) -> (r: Pkcs11KeyType)
        ensures
            r@ == with_overrides(self@, conf_view(conf)),
    {
        match self {
            Pkcs11KeyType::PKFO(mut p) => {
                p.apply_config(conf);
                Pkcs11KeyType::PKFO(p)
            },
            Pkcs11KeyType::Other(b) => Pkcs11KeyType::Other(b),
        }
    }
}

/// Once a configuration is given, a token-backed key carries exactly its
/// search paths, whatever paths it had before; other kinds of key are not
/// touched.
pub proof fn lemma_override_propagation(k: KeyModel, conf: ConfigModel)
    ensures
        match with_overrides(k, Some(conf)) {
            KeyModel::Token(u) => u.module_directories == Some(conf.module_directories)
                && u.allowed_module_paths == Some(conf.allowed_module_paths),
            KeyModel::Other(b) => k == KeyModel::Other(b),
        },
        k is Token <==> with_overrides(k, Some(conf)) is Token,
{
}

} // verus!

use vstd::prelude::*;

use crate::cert::{cert_sn_or_empty, get_cert_sn_from_content, get_root_cert_sn_from_content,
    root_sn_or_empty};
use crate::client::{client_base_map, Client};
use crate::crypto::Sign;
use crate::params::RequestParam;

verus! {

/// The view of an optional stored text.
pub open spec fn opt_string_view(o: Option<String>) -> Option<Seq<char>> {
    match o {
        Some(s) => Some(s@),
        None => None,
    }
}

/// Collects the pieces of a client's identity into a reusable
/// configuration; each step hands the builder back, so the calls chain.
/// `finish` resolves the certificate serial fingerprints once.
pub struct ConfigBuilder<'a> {
    app_id: Option<&'a str>,
    public_key: Option<&'a str>,
    private_key: Option<&'a str>,
    app_cert_sn: Option<&'a str>,
    alipay_root_cert_sn: Option<&'a str>,
}

/// A client's identity with the certificate serial fingerprints already
/// resolved: clients can be minted from it without touching the
/// certificates again.
pub struct Config {
    app_id: String,
    public_key: String,
    private_key: String,
    app_cert_sn: Option<String>,
    alipay_root_cert_sn: Option<String>,
}

impl<'a> ConfigBuilder<'a> {
    pub closed spec fn spec_app_id(&self) -> Option<&'a str> {
        self.app_id
    }

    pub closed spec fn spec_public_key(&self) -> Option<&'a str> {
        self.public_key
    }

    pub closed spec fn spec_private_key(&self) -> Option<&'a str> {
        self.private_key
    }

    pub closed spec fn spec_app_cert_sn(&self) -> Option<&'a str> {
        self.app_cert_sn
    }

    pub closed spec fn spec_alipay_root_cert_sn(&self) -> Option<&'a str> {
        self.alipay_root_cert_sn
    }

    /// The builder with nothing set.
    pub closed spec fn default_spec() -> ConfigBuilder<'a> {
        ConfigBuilder {
            app_id: None,
            public_key: None,
            private_key: None,
            app_cert_sn: None,
            alipay_root_cert_sn: None,
        }
    }

    /// A builder with nothing set.
    pub fn empty() -> (r: ConfigBuilder<'a>)
        ensures
            r == ConfigBuilder::<'a>::default_spec(),
            r.spec_app_id() is None,
            r.spec_public_key() is None,
            r.spec_private_key() is None,
            r.spec_app_cert_sn() is None,
            r.spec_alipay_root_cert_sn() is None,
    {
        ConfigBuilder {
            app_id: None,
            public_key: None,
            private_key: None,
            app_cert_sn: None,
            alipay_root_cert_sn: None,
        }
    }

    /// Sets the application id.
    pub fn app_id(self, app_id: &'a str) -> (r: Self)
        ensures
            r.spec_app_id() == Some(app_id),
            r.spec_public_key() == self.spec_public_key(),
            r.spec_private_key() == self.spec_private_key(),
            r.spec_app_cert_sn() == self.spec_app_cert_sn(),
            r.spec_alipay_root_cert_sn() == self.spec_alipay_root_cert_sn(),
    {
        ConfigBuilder { app_id: Some(app_id), ..self }
    }

    /// Sets the application public key (base64-encoded DER).
    pub fn public_key(self, public_key: &'a str) -> (r: Self)
        ensures
            r.spec_public_key() == Some(public_key),
            r.spec_app_id() == self.spec_app_id(),
            r.spec_private_key() == self.spec_private_key(),
            r.spec_app_cert_sn() == self.spec_app_cert_sn(),
            r.spec_alipay_root_cert_sn() == self.spec_alipay_root_cert_sn(),
    {
        ConfigBuilder { public_key: Some(public_key), ..self }
    }

    /// Sets the application private key (base64-encoded DER).
    pub fn private_key(self, private_key: &'a str) -> (r: Self)
        ensures
            r.spec_private_key() == Some(private_key),
            r.spec_app_id() == self.spec_app_id(),
            r.spec_public_key() == self.spec_public_key(),
            r.spec_app_cert_sn() == self.spec_app_cert_sn(),
            r.spec_alipay_root_cert_sn() == self.spec_alipay_root_cert_sn(),
    {
        ConfigBuilder { private_key: Some(private_key), ..self }
    }

    /// Sets the application certificate (PEM text).
    pub fn app_cert_sn(self, app_cert_sn: &'a str) -> (r: Self)
        ensures
            r.spec_app_cert_sn() == Some(app_cert_sn),
            r.spec_app_id() == self.spec_app_id(),
            r.spec_public_key() == self.spec_public_key(),
            r.spec_private_key() == self.spec_private_key(),
            r.spec_alipay_root_cert_sn() == self.spec_alipay_root_cert_sn(),
    {
        ConfigBuilder { app_cert_sn: Some(app_cert_sn), ..self }
    }

    /// Sets the root certificate bundle (PEM text).
    pub fn alipay_root_cert_sn(self, alipay_root_cert_sn: &'a str) -> (r: Self)
        ensures
            r.spec_alipay_root_cert_sn() == Some(alipay_root_cert_sn),
            r.spec_app_id() == self.spec_app_id(),
            r.spec_public_key() == self.spec_public_key(),
            r.spec_private_key() == self.spec_private_key(),
            r.spec_app_cert_sn() == self.spec_app_cert_sn(),
    {
        ConfigBuilder { alipay_root_cert_sn: Some(alipay_root_cert_sn), ..self }
    }

    /// Resolves the certificate serial fingerprints and yields the
    /// configuration; a piece that was not set enters as the empty text,
    /// and a certificate whose fingerprint cannot be extracted leaves an
    /// empty fingerprint.
    pub fn finish(&self) -> (r: Config)
        ensures
            r.spec_app_id() == crate::builder::opt_str_view(self.spec_app_id()),
            r.spec_public_key() == crate::builder::opt_str_view(self.spec_public_key()),
            r.spec_private_key() == crate::builder::opt_str_view(self.spec_private_key()),
            r.spec_app_cert_sn() == match self.spec_app_cert_sn() {
                Some(c) => Some(cert_sn_or_empty(c@)),
                None => None,
            },
            r.spec_alipay_root_cert_sn() == match self.spec_alipay_root_cert_sn() {
                Some(c) => Some(root_sn_or_empty(c@)),
                None => None,
            },
    {
        let app_cert_sn = match self.app_cert_sn {
            Some(cert) => Some(
                match get_cert_sn_from_content(cert) {
                    Ok(s) => s,
                    Err(_) => String::new(),
                },
            ),
            None => None,
        };
        let alipay_root_cert_sn = match self.alipay_root_cert_sn {
            Some(cert) => Some(
                match get_root_cert_sn_from_content(cert) {
                    Ok(s) => s,
                    Err(_) => String::new(),
                },
            ),
            None => None,
        };
        let app_id = match self.app_id {
            Some(s) => s,
            None => "",
        };
        let public_key = match self.public_key {
            Some(s) => s,
            None => "",
        };
        let private_key = match self.private_key {
            Some(s) => s,
            None => "",
        };
        proof {
            reveal_strlit("");
            assert(""@ =~= Seq::<char>::empty());
        }
        Config {
            app_id: app_id.to_owned(),
            public_key: public_key.to_owned(),
            private_key: private_key.to_owned(),
            app_cert_sn,
            alipay_root_cert_sn,
        }
    }
}

impl<'a> Default for ConfigBuilder<'a> {
    fn default() -> (r: ConfigBuilder<'a>)
        ensures
            r == ConfigBuilder::<'a>::default_spec(),
            r.spec_app_id() is None,
            r.spec_public_key() is None,
            r.spec_private_key() is None,
            r.spec_app_cert_sn() is None,
            r.spec_alipay_root_cert_sn() is None,
    {
        ConfigBuilder::empty()
    }
}

impl Config {
    pub closed spec fn spec_app_id(&self) -> Seq<char> {
        self.app_id@
    }

    pub closed spec fn spec_public_key(&self) -> Seq<char> {
        self.public_key@
    }

    pub closed spec fn spec_private_key(&self) -> Seq<char> {
        self.private_key@
    }

    pub closed spec fn spec_app_cert_sn(&self) -> Option<Seq<char>> {
        opt_string_view(self.app_cert_sn)
    }

    pub closed spec fn spec_alipay_root_cert_sn(&self) -> Option<Seq<char>> {
        opt_string_view(self.alipay_root_cert_sn)
    }

    /// A builder for the configuration.
    pub fn builder<'a>() -> (r: ConfigBuilder<'a>)
        ensures
            r == ConfigBuilder::<'a>::default_spec(),
    {
        ConfigBuilder::empty()
    }

    /// Builds the configuration in one step, resolving the certificate
    /// serial fingerprints; a certificate that cannot be read leaves an
    /// empty fingerprint.
    pub fn new(
        app_id: &str,
        public_key: &str,
        private_key: &str,
        app_cert_sn: Option<&str>,
        alipay_root_cert_sn: Option<&str>,
    ) -> (r: Config)
        ensures
            r.spec_app_id() == app_id@,
            r.spec_public_key() == public_key@,
            r.spec_private_key() == private_key@,
            r.spec_app_cert_sn() == match app_cert_sn {
                Some(c) => Some(cert_sn_or_empty(c@)),
                None => None,
            },
            r.spec_alipay_root_cert_sn() == match alipay_root_cert_sn {
                Some(c) => Some(root_sn_or_empty(c@)),
                None => None,
            },
    {
        let app_cert = match app_cert_sn {
            Some(cert) => Some(
                match get_cert_sn_from_content(cert) {
                    Ok(s) => s,
                    Err(_) => String::new(),
                },
            ),
            None => None,
        };
        let root_cert = match alipay_root_cert_sn {
            Some(cert) => Some(
                match get_root_cert_sn_from_content(cert) {
                    Ok(s) => s,
                    Err(_) => String::new(),
                },
            ),
            None => None,
        };
        Config {
            app_id: app_id.to_owned(),
            public_key: public_key.to_owned(),
            private_key: private_key.to_owned(),
            app_cert_sn: app_cert,
            alipay_root_cert_sn: root_cert,
        }
    }

    /// Mints a client that carries this identity.
    pub fn get_client(&self) -> (r: Client)
        ensures
            r.wf(),
            r.signing_key() == self.spec_private_key(),
            r.verifying_key() == self.spec_public_key(),
            r.sandbox_view() == false,
            r.base_map() == client_base_map(
                self.spec_app_id(),
                self.spec_app_cert_sn(),
                self.spec_alipay_root_cert_sn(),
            ),
    {
        let mut params = RequestParam::empty();
        params.save("app_id".to_owned(), self.app_id.clone());
        params.save("charset".to_owned(), "utf-8".to_owned());
        params.save("sign_type".to_owned(), "RSA2".to_owned());
        params.save("format".to_owned(), "json".to_owned());
        params.save("version".to_owned(), "1.0".to_owned());
        if let Some(cert_sn) = &self.app_cert_sn {
            params.save("app_cert_sn".to_owned(), cert_sn.clone());
        }
        if let Some(root_cert_sn) = &self.alipay_root_cert_sn {
            params.save("alipay_root_cert_sn".to_owned(), root_cert_sn.clone());
        }
        let r = Client::new_from_config(params, self.public_key.clone(), self.private_key.clone());
        proof {
            assert(r.base_map() =~= client_base_map(
                self.spec_app_id(),
                self.spec_app_cert_sn(),
                self.spec_alipay_root_cert_sn(),
            ));
        }
        r
    }
}

} // verus!

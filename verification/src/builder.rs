use vstd::prelude::*;

use crate::cert::{cert_sn_or_empty, root_sn_or_empty};
use crate::client::{client_base_map, Client};
use crate::crypto::Sign;

verus! {

/// The view of an optional borrowed text, with the empty text for an
/// absent one.
pub open spec fn opt_str_view(o: Option<&str>) -> Seq<char> {
    match o {
        Some(s) => s@,
        None => Seq::empty(),
    }
}

/// Collects the pieces of a client's identity and builds the client. Each
/// step hands the builder back, so the calls chain; `finish` resolves the
/// certificate serial fingerprints and yields the client.
pub struct ClientBuilder<'a> {
    app_id: Option<&'a str>,
    public_key: Option<&'a str>,
    private_key: Option<&'a str>,
    app_cert_sn: Option<&'a str>,
    alipay_root_cert_sn: Option<&'a str>,
    alipay_public_key: Option<&'a str>,
    sandbox: bool,
}

impl<'a> ClientBuilder<'a> {
    pub closed spec fn spec_app_id(&self) -> Option<&'a str> {
        self.app_id
    }

    pub closed spec fn spec_public_key(&self) -> Option<&'a str> {
        self.public_key
    }

    pub closed spec fn spec_private_key(&self) -> Option<&'a str> {
        self.private_key
    }

    pub closed spec fn spec_app_cert_sn(&self) -> Option<&'a str> {
        self.app_cert_sn
    }

    pub closed spec fn spec_alipay_root_cert_sn(&self) -> Option<&'a str> {
        self.alipay_root_cert_sn
    }

    pub closed spec fn spec_alipay_public_key(&self) -> Option<&'a str> {
        self.alipay_public_key
    }

    pub closed spec fn spec_sandbox(&self) -> bool {
        self.sandbox
    }

    /// The builder with nothing set.
    pub closed spec fn default_spec() -> ClientBuilder<'a> {
        ClientBuilder {
            app_id: None,
            public_key: None,
            private_key: None,
            app_cert_sn: None,
            alipay_root_cert_sn: None,
            alipay_public_key: None,
            sandbox: false,
        }
    }

    /// A builder with nothing set.
    pub fn empty() -> (r: ClientBuilder<'a>)
        ensures
            r == ClientBuilder::<'a>::default_spec(),
            r.spec_app_id() is None,
            r.spec_public_key() is None,
            r.spec_private_key() is None,
            r.spec_app_cert_sn() is None,
            r.spec_alipay_root_cert_sn() is None,
            r.spec_alipay_public_key() is None,
            r.spec_sandbox() == false,
    {
        ClientBuilder {
            app_id: None,
            public_key: None,
            private_key: None,
            app_cert_sn: None,
            alipay_root_cert_sn: None,
            alipay_public_key: None,
            sandbox: false,
        }
    }

    /// Sets the application id.
    pub fn app_id(self, app_id: &'a str) -> (r: Self)
        ensures
            r.spec_app_id() == Some(app_id),
            r.spec_public_key() == self.spec_public_key(),
            r.spec_private_key() == self.spec_private_key(),
            r.spec_app_cert_sn() == self.spec_app_cert_sn(),
            r.spec_alipay_root_cert_sn() == self.spec_alipay_root_cert_sn(),
            r.spec_alipay_public_key() == self.spec_alipay_public_key(),
            r.spec_sandbox() == self.spec_sandbox(),
    {
        ClientBuilder { app_id: Some(app_id), ..self }
    }

    /// Sets the application public key (base64-encoded DER).
    pub fn public_key(self, public_key: &'a str) -> (r: Self)
        ensures
            r.spec_public_key() == Some(public_key),
            r.spec_app_id() == self.spec_app_id(),
            r.spec_private_key() == self.spec_private_key(),
            r.spec_app_cert_sn() == self.spec_app_cert_sn(),
            r.spec_alipay_root_cert_sn() == self.spec_alipay_root_cert_sn(),
            r.spec_alipay_public_key() == self.spec_alipay_public_key(),
            r.spec_sandbox() == self.spec_sandbox(),
    {
        ClientBuilder { public_key: Some(public_key), ..self }
    }

    /// Sets the application private key (base64-encoded DER).
    pub fn private_key(self, private_key: &'a str) -> (r: Self)
        ensures
            r.spec_private_key() == Some(private_key),
            r.spec_app_id() == self.spec_app_id(),
            r.spec_public_key() == self.spec_public_key(),
            r.spec_app_cert_sn() == self.spec_app_cert_sn(),
            r.spec_alipay_root_cert_sn() == self.spec_alipay_root_cert_sn(),
            r.spec_alipay_public_key() == self.spec_alipay_public_key(),
            r.spec_sandbox() == self.spec_sandbox(),
    {
        ClientBuilder { private_key: Some(private_key), ..self }
    }

    /// Sets the application certificate (PEM text).
    pub fn app_cert_sn(self, app_cert_sn: &'a str) -> (r: Self)
        ensures
            r.spec_app_cert_sn() == Some(app_cert_sn),
            r.spec_app_id() == self.spec_app_id(),
            r.spec_public_key() == self.spec_public_key(),
            r.spec_private_key() == self.spec_private_key(),
            r.spec_alipay_root_cert_sn() == self.spec_alipay_root_cert_sn(),
            r.spec_alipay_public_key() == self.spec_alipay_public_key(),
            r.spec_sandbox() == self.spec_sandbox(),
    {
        ClientBuilder { app_cert_sn: Some(app_cert_sn), ..self }
    }

    /// Sets the root certificate bundle (PEM text).
    pub fn alipay_root_cert_sn(self, alipay_root_cert_sn: &'a str) -> (r: Self)
        ensures
            r.spec_alipay_root_cert_sn() == Some(alipay_root_cert_sn),
            r.spec_app_id() == self.spec_app_id(),
            r.spec_public_key() == self.spec_public_key(),
            r.spec_private_key() == self.spec_private_key(),
            r.spec_app_cert_sn() == self.spec_app_cert_sn(),
            r.spec_alipay_public_key() == self.spec_alipay_public_key(),
            r.spec_sandbox() == self.spec_sandbox(),
    {
        ClientBuilder { alipay_root_cert_sn: Some(alipay_root_cert_sn), ..self }
    }

    /// Addresses the sandbox gateway instead of the production one.
    pub fn sandbox(self) -> (r: Self)
        ensures
            r.spec_sandbox() == true,
            r.spec_app_id() == self.spec_app_id(),
            r.spec_public_key() == self.spec_public_key(),
            r.spec_private_key() == self.spec_private_key(),
            r.spec_app_cert_sn() == self.spec_app_cert_sn(),
            r.spec_alipay_root_cert_sn() == self.spec_alipay_root_cert_sn(),
            r.spec_alipay_public_key() == self.spec_alipay_public_key(),
    {
        ClientBuilder { sandbox: true, ..self }
    }

    /// Stores the gateway's public key; the request pipeline has no use for
    /// it at present.
    pub fn alipay_public_key(self, alipay_public_key: &'a str) -> (r: Self)
        ensures
            r.spec_alipay_public_key() == Some(alipay_public_key),
            r.spec_app_id() == self.spec_app_id(),
            r.spec_public_key() == self.spec_public_key(),
            r.spec_private_key() == self.spec_private_key(),
            r.spec_app_cert_sn() == self.spec_app_cert_sn(),
            r.spec_alipay_root_cert_sn() == self.spec_alipay_root_cert_sn(),
            r.spec_sandbox() == self.spec_sandbox(),
    {
        ClientBuilder { alipay_public_key: Some(alipay_public_key), ..self }
    }

    /// Builds the client from what has been set; a piece that was not set
    /// enters as the empty text, and a certificate whose fingerprint cannot
    /// be extracted leaves an empty serial.
    pub fn finish(&self) -> (r: Client)
        ensures
            r.wf(),
            r.sandbox_view() == self.spec_sandbox(),
            r.signing_key() == opt_str_view(self.spec_private_key()),
            r.verifying_key() == opt_str_view(self.spec_public_key()),
            r.base_map() == client_base_map(
                opt_str_view(self.spec_app_id()),
                match self.spec_app_cert_sn() {
                    Some(c) => Some(cert_sn_or_empty(c@)),
                    None => None,
                },
                match self.spec_alipay_root_cert_sn() {
                    Some(c) => Some(root_sn_or_empty(c@)),
                    None => None,
                },
            ),
    {
        let app_id = match self.app_id {
            Some(s) => s,
            None => "",
        };
        let public_key = match self.public_key {
            Some(s) => s,
            None => "",
        };
        let private_key = match self.private_key {
            Some(s) => s,
            None => "",
        };
        proof {
            reveal_strlit("");
            assert(""@ =~= Seq::<char>::empty());
        }
        Client::new(
            app_id,
            public_key,
            private_key,
            self.app_cert_sn,
            self.alipay_root_cert_sn,
            self.sandbox,
        )
    }
}

impl<'a> Default for ClientBuilder<'a> {
    fn default() -> (r: ClientBuilder<'a>)
        ensures
            r == ClientBuilder::<'a>::default_spec(),
            r.spec_app_id() is None,
            r.spec_public_key() is None,
            r.spec_private_key() is None,
            r.spec_app_cert_sn() is None,
            r.spec_alipay_root_cert_sn() is None,
            r.spec_alipay_public_key() is None,
            r.spec_sandbox() == false,
    {
        ClientBuilder::empty()
    }
}

} // verus!

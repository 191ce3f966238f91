use vstd::prelude::*;

use crate::canonical::{
    joined_string, lemma_pair_le_total_ordering, lemma_sorted_unique, pair_le_fn, sort_pairs,
    view_pairs,
};
use crate::cert::{cert_sn_or_empty, get_cert_sn_from_content, get_root_cert_sn_from_content,
    root_sn_or_empty};
use crate::crypto::{rsa2_sign_ok, rsa_sha256_sign, rsa_sha256_verify, Sign};
use crate::error::{AlipayError, AlipayResult};
use crate::merge::{
    base_kept, extra_pairs, merged_pairs, option_view, over_kept, reserved_key, signed_pairs,
};
use crate::params::{lemma_map_of_pairs_contains, map_of_pairs, unique_keys, RequestParam};
use crate::text::str_eq;
use crate::util::{datetime, datetime_chars};
use crate::value::{flat_chars, flat_string, json_chars, json_string, payload_absent, ParamValue};

verus! {

// ---------------------------------------------------------------------------
// Form encoding of the final pairs
// ---------------------------------------------------------------------------

/// The `application/x-www-form-urlencoded` rendering of a list of string
/// pairs; a function of the pairs alone.
pub uninterp spec fn form_urlencoded_of(pairs: Seq<(Seq<char>, Seq<char>)>) -> Seq<char>;

/// Relies on `serde_urlencoded::to_string` over a list of string pairs: the
/// `application/x-www-form-urlencoded` text of the pairs, in order. A list
/// of string pairs always serializes — every value goes through the
/// serializer's string case — so this cannot fail.
#[verifier::external_body]
fn form_urlencode(pairs: &Vec<(String, String)>) -> (r: AlipayResult<String>)
    ensures
        r is Ok,
        r matches Ok(s) ==> s@ == form_urlencoded_of(view_pairs(pairs@)),
{
    serde_urlencoded::to_string(pairs).map_err(|e| AlipayError::new(&e.to_string()))
}

/// Whether the key is one the per-call machinery owns.
fn is_reserved_key(k: &str) -> (r: bool)
    ensures
        r == reserved_key(k@),
{
    str_eq(k, "timestamp") || str_eq(k, "method") || str_eq(k, "biz_content") || str_eq(k, "sign")
}

// ---------------------------------------------------------------------------
// Applying caller-supplied public parameters
// ---------------------------------------------------------------------------

/// The override map after applying the caller's fields from position `i`
/// on: an absent-marker value is skipped, everything else is stringified
/// and upserted.
pub open spec fn apply_params_from(
    m: Map<Seq<char>, Seq<char>>,
    s: Seq<(String, ParamValue)>,
    i: int,
) -> Map<Seq<char>, Seq<char>>
    decreases s.len() - i,
{
    if i < 0 || i >= s.len() {
        m
    } else {
        let step = if s[i].1 is Null {
            m
        } else {
            m.insert(s[i].0@, flat_chars(s[i].1))
        };
        apply_params_from(step, s, i + 1)
    }
}

// ---------------------------------------------------------------------------
// The client
// ---------------------------------------------------------------------------

/// A configured gateway client: identity and protocol constants fixed at
/// construction, plus the key pair. It carries no per-call state; override
/// fields live in the `ClientWithParams` value that `set_public_params`
/// hands out, so one `Client` can be shared read-only across calls.
pub struct Client {
    public_key: String,
    private_key: String,
    request_params: RequestParam,
    sandbox: bool,
}

/// A client together with caller-supplied override fields for the next
/// call. The override fields are consumed by the call that uses them.
pub struct ClientWithParams {
    public_key: String,
    private_key: String,
    request_params: RequestParam,
    other_params: RequestParam,
    sandbox: bool,
}

/// The base field map every client starts from, with the optional
/// certificate serial entries.
pub open spec fn client_base_map(
    app_id: Seq<char>,
    csn: Option<Seq<char>>,
    rsn: Option<Seq<char>>,
) -> Map<Seq<char>, Seq<char>> {
    let m = Map::<Seq<char>, Seq<char>>::empty().insert("app_id"@, app_id).insert(
        "charset"@,
        "utf-8"@,
    ).insert("sign_type"@, "RSA2"@).insert("format"@, "json"@).insert("version"@, "1.0"@);
    let m2 = if csn is Some {
        m.insert("app_cert_sn"@, csn->0)
    } else {
        m
    };
    if rsn is Some {
        m2.insert("alipay_root_cert_sn"@, rsn->0)
    } else {
        m2
    }
}

impl Client {
    /// The base fields, as held.
    pub closed spec fn base_pairs(&self) -> Seq<(Seq<char>, Seq<char>)> {
        self.request_params.pairs()
    }

    /// The base fields as a map.
    pub open spec fn base_map(&self) -> Map<Seq<char>, Seq<char>> {
        map_of_pairs(self.base_pairs())
    }

    /// Whether the sandbox gateway is addressed.
    pub closed spec fn sandbox_view(&self) -> bool {
        self.sandbox
    }

    pub closed spec fn wf(&self) -> bool {
        self.request_params.wf()
    }

    /// A well-formed client holds no duplicate base keys; callers use this
    /// to discharge the premises of the merge laws.
    pub proof fn lemma_wf_unique(&self)
        requires
            self.wf(),
        ensures
            unique_keys(self.base_pairs()),
    {
    }

    /// Builds a client from the application identity: the app id, the key
    /// pair, and optionally the application and root certificates (as PEM
    /// text), whose serial fingerprints become base fields. A certificate
    /// whose fingerprint cannot be extracted leaves an empty serial, as the
    /// gateway protocol tolerates; the request then proceeds without a
    /// usable serial.
    pub fn new(
        app_id: &str,
        public_key: &str,
        private_key: &str,
        app_cert_sn: Option<&str>,
        alipay_root_cert_sn: Option<&str>,
        sandbox: bool,
    ) -> (r: Client)
        ensures
            r.wf(),
            r.sandbox_view() == sandbox,
            r.signing_key() == private_key@,
            r.verifying_key() == public_key@,
            r.base_map() == client_base_map(
                app_id@,
                match app_cert_sn {
                    Some(c) => Some(cert_sn_or_empty(c@)),
                    None => None,
                },
                match alipay_root_cert_sn {
                    Some(c) => Some(root_sn_or_empty(c@)),
                    None => None,
                },
            ),
    {
        let mut params = RequestParam::empty();
        params.save("app_id".to_owned(), app_id.to_owned());
        params.save("charset".to_owned(), "utf-8".to_owned());
        params.save("sign_type".to_owned(), "RSA2".to_owned());
        params.save("format".to_owned(), "json".to_owned());
        params.save("version".to_owned(), "1.0".to_owned());
        if let Some(cert) = app_cert_sn {
            let sn = match get_cert_sn_from_content(cert) {
                Ok(s) => s,
                Err(_) => String::new(),
            };
            proof {
                assert(sn@ == cert_sn_or_empty(cert@));
            }
            params.save("app_cert_sn".to_owned(), sn);
        }
        if let Some(root) = alipay_root_cert_sn {
            let sn = match get_root_cert_sn_from_content(root) {
                Ok(s) => s,
                Err(_) => String::new(),
            };
            proof {
                assert(sn@ == root_sn_or_empty(root@));
            }
            params.save("alipay_root_cert_sn".to_owned(), sn);
        }
        let r = Client {
            public_key: public_key.to_owned(),
            private_key: private_key.to_owned(),
            request_params: params,
            sandbox,
        };
        proof {
            assert(r.base_map() =~= client_base_map(
                app_id@,
                match app_cert_sn {
                    Some(c) => Some(cert_sn_or_empty(c@)),
                    None => None,
                },
                match alipay_root_cert_sn {
                    Some(c) => Some(root_sn_or_empty(c@)),
                    None => None,
                },
            ));
        }
        r
    }

    /// Builds a client from already-prepared base fields and key texts.
    pub(crate) fn new_from_config(
        request_params: RequestParam,
        public_key: String,
        private_key: String,
    ) -> (r: Client)
        requires
            request_params.wf(),
        ensures
            r.wf(),
            r.base_pairs() == request_params.pairs(),
            r.signing_key() == private_key@,
            r.verifying_key() == public_key@,
            r.sandbox_view() == false,
    {
        Client { public_key, private_key, request_params, sandbox: false }
    }

    /// A builder for the client.
    pub fn builder<'a>() -> (r: crate::builder::ClientBuilder<'a>)
        ensures
            r == crate::builder::ClientBuilder::default_spec(),
    {
        crate::builder::ClientBuilder::empty()
    }

    /// Hands out a value that carries the given override fields for one
    /// call, leaving this client untouched. An absent-marker value skips
    /// its field; every other value is stringified on the spot.
    pub fn set_public_params(&self, args: Vec<(String, ParamValue)>) -> (r: ClientWithParams)
        requires
            self.wf(),
        ensures
            r.wf(),
            r.base_pairs() == self.base_pairs(),
            r.signing_key() == self.signing_key(),
            r.verifying_key() == self.verifying_key(),
            r.sandbox_view() == self.sandbox_view(),
            r.other_map() == apply_params_from(
                Map::<Seq<char>, Seq<char>>::empty(),
                args@,
                0,
            ),
            args@.len() == 0 ==> r.other_pairs() == Seq::<(Seq<char>, Seq<char>)>::empty(),
    {
        let mut with_params = ClientWithParams {
            public_key: self.public_key.clone(),
            private_key: self.private_key.clone(),
            request_params: self.request_params.duplicate(),
            other_params: RequestParam::empty(),
            sandbox: self.sandbox,
        };
        with_params.set_public_params(args);
        with_params
    }

    /// The same operation under its earlier name.
    pub fn add_public_params(&self, args: Vec<(String, ParamValue)>) -> (r: ClientWithParams)
        requires
            self.wf(),
        ensures
            r.wf(),
            r.base_pairs() == self.base_pairs(),
            r.signing_key() == self.signing_key(),
            r.verifying_key() == self.verifying_key(),
            r.sandbox_view() == self.sandbox_view(),
            r.other_map() == apply_params_from(
                Map::<Seq<char>, Seq<char>>::empty(),
                args@,
                0,
            ),
    {
        self.set_public_params(args)
    }

    /// Whether the sandbox gateway is addressed.
    pub fn is_sandbox(&self) -> (r: bool)
        ensures
            r == self.sandbox_view(),
    {
        self.sandbox
    }

    /// Builds the complete, signed, form-encoded request body for one call:
    /// the base fields merged with timestamp, method and the optional
    /// payload, sorted, signed, and encoded.
    pub fn build_params(&self, method: String, biz_content: Option<String>) -> (r: AlipayResult<
        String,
    >)
        requires
            self.wf(),
        ensures
            r is Ok ==> rsa2_sign_ok(self.signing_key()),
            !rsa2_sign_ok(self.signing_key()) ==> r is Err,
            r matches Ok(s) ==> exists|t: u64|
                s@ == form_urlencoded_of(
                    signed_pairs(
                        self.signing_key(),
                        merged_pairs(
                            self.base_pairs(),
                            Seq::<(Seq<char>, Seq<char>)>::empty(),
                            datetime_chars(t as nat),
                            method@,
                            option_view(biz_content),
                        ),
                    ),
                ),
    {
        let mut with_params = self.set_public_params(Vec::new());
        with_params.build_params(method, biz_content)
    }
}

impl Sign for Client {
    closed spec fn signing_key(&self) -> Seq<char> {
        self.private_key@
    }

    closed spec fn verifying_key(&self) -> Seq<char> {
        self.public_key@
    }

    fn sign(&self, params: &str) -> (r: AlipayResult<String>) {
        rsa_sha256_sign(self.private_key.as_str(), params)
    }

    fn verify(&self, source: &str, signature: &str) -> (r: AlipayResult<bool>) {
        rsa_sha256_verify(self.public_key.as_str(), source, signature)
    }
}

// ---------------------------------------------------------------------------
// The client with per-call override fields
// ---------------------------------------------------------------------------

impl ClientWithParams {
    /// The base fields, as held.
    pub closed spec fn base_pairs(&self) -> Seq<(Seq<char>, Seq<char>)> {
        self.request_params.pairs()
    }

    /// The base fields as a map.
    pub open spec fn base_map(&self) -> Map<Seq<char>, Seq<char>> {
        map_of_pairs(self.base_pairs())
    }

    /// The override fields, as held.
    pub closed spec fn other_pairs(&self) -> Seq<(Seq<char>, Seq<char>)> {
        self.other_params.pairs()
    }

    /// The override fields as a map.
    pub open spec fn other_map(&self) -> Map<Seq<char>, Seq<char>> {
        map_of_pairs(self.other_pairs())
    }

    /// Whether the sandbox gateway is addressed.
    pub closed spec fn sandbox_view(&self) -> bool {
        self.sandbox
    }

    pub closed spec fn wf(&self) -> bool {
        self.request_params.wf() && self.other_params.wf()
    }

    /// A well-formed client holds no duplicate base or override keys;
    /// callers use this to discharge the premises of the merge laws.
    pub proof fn lemma_wf_unique(&self)
        requires
            self.wf(),
        ensures
            unique_keys(self.base_pairs()),
            unique_keys(self.other_pairs()),
    {
    }

    /// Whether the sandbox gateway is addressed.
    pub fn is_sandbox(&self) -> (r: bool)
        ensures
            r == self.sandbox_view(),
    {
        self.sandbox
    }

    /// Adds more override fields for the next call. An absent-marker value
    /// skips its field; every other value is stringified on the spot.
    pub fn set_public_params(&mut self, args: Vec<(String, ParamValue)>)
        requires
            old(self).wf(),
        ensures
            final(self).wf(),
            final(self).base_pairs() == old(self).base_pairs(),
            final(self).signing_key() == old(self).signing_key(),
            final(self).verifying_key() == old(self).verifying_key(),
            final(self).sandbox_view() == old(self).sandbox_view(),
            final(self).other_map() == apply_params_from(old(self).other_map(), args@, 0),
            args@.len() == 0 ==> final(self).other_pairs() == old(self).other_pairs(),
    {
        let ghost orig = args@;
        let ghost m0 = self.other_map();
        let mut rest = args;
        let n_args = rest.len();
        let mut i: usize = 0;
        while rest.len() > 0
            invariant
                old(self).wf(),
                self.wf(),
                self.request_params == old(self).request_params,
                self.public_key == old(self).public_key,
                self.private_key == old(self).private_key,
                self.sandbox == old(self).sandbox,
                i == 0 ==> self == old(self),
                orig.len() == n_args,
                i + rest@.len() == orig.len(),
                rest@ == orig.skip(i as int),
                apply_params_from(m0, orig, 0) == apply_params_from(
                    self.other_map(),
                    orig,
                    i as int,
                ),
            decreases rest@.len(),
        {
            let p = rest.remove(0);
            proof {
                assert(orig[i as int] == p);
                assert(rest@ =~= orig.skip(i as int + 1));
            }
            if !p.1.is_null() {
                let val = flat_string(&p.1);
                self.other_params.save(p.0, val);
            }
            i = i + 1;
        }
    }

    /// Merges the base fields, the override fields and the per-call fields
    /// into the sorted parameter list of one request, and consumes the
    /// override fields: they never carry over to a later call.
    pub fn merge_params(&mut self, timestamp: String, method: String, biz_content: Option<String>)
        -> (r: Vec<(String, String)>)
        requires
            old(self).wf(),
        ensures
            final(self).wf(),
            final(self).base_pairs() == old(self).base_pairs(),
            final(self).other_pairs() == Seq::<(Seq<char>, Seq<char>)>::empty(),
            final(self).signing_key() == old(self).signing_key(),
            final(self).verifying_key() == old(self).verifying_key(),
            final(self).sandbox_view() == old(self).sandbox_view(),
            view_pairs(r@) == merged_pairs(
                old(self).base_pairs(),
                old(self).other_pairs(),
                timestamp@,
                method@,
                option_view(biz_content),
            ).sort_by(pair_le_fn()),
    {
        let ghost bvs = self.request_params.pairs();
        let ghost ovs = self.other_params.pairs();
        let ghost biz_v = option_view(biz_content);
        let ghost ts_v = timestamp@;
        let ghost method_v = method@;
        let mut params: Vec<(String, String)> = Vec::new();
        params.push(("timestamp".to_owned(), timestamp));
        params.push(("method".to_owned(), method));
        if let Some(content) = biz_content {
            params.push(("biz_content".to_owned(), content));
        }
        let ghost extra = extra_pairs(ts_v, method_v, biz_v);
        proof {
            assert(view_pairs(params@) =~= extra);
        }
        // base fields that are neither reserved nor overridden
        let ghost bpred = base_kept(ovs);
        let n = self.request_params.len();
        let mut i: usize = 0;
        proof {
            assert(bvs.take(0).filter(bpred) =~= Seq::<(Seq<char>, Seq<char>)>::empty());
            assert(view_pairs(params@) =~= extra + bvs.take(0).filter(bpred));
        }
        while i < n
            invariant
                i <= n,
                n == bvs.len(),
                self == old(self),
                bvs == self.request_params.pairs(),
                ovs == self.other_params.pairs(),
                bpred == base_kept(ovs),
                view_pairs(params@) == extra + bvs.take(i as int).filter(bpred),
            decreases n - i,
        {
            let entries = self.request_params.entries();
            let keep = !is_reserved_key(entries[i].0.as_str()) && !self.other_params.contains_key(
                entries[i].0.as_str(),
            );
            proof {
                lemma_map_of_pairs_contains(ovs, bvs[i as int].0);
                assert(bvs[i as int] == (entries@[i as int].0@, entries@[i as int].1@));
                assert(keep == bpred(bvs[i as int]));
            }
            let ghost pre_view = view_pairs(params@);
            if keep {
                let key = entries[i].0.clone();
                let val = entries[i].1.clone();
                params.push((key, val));
            }
            proof {
                reveal(Seq::filter);
                assert(bvs.take(i + 1).drop_last() =~= bvs.take(i as int));
                assert(bvs.take(i + 1).last() == bvs[i as int]);
                assert(bvs.take(i + 1).filter(bpred) == if bpred(bvs[i as int]) {
                    bvs.take(i as int).filter(bpred).push(bvs[i as int])
                } else {
                    bvs.take(i as int).filter(bpred)
                });
                if keep {
                    assert(view_pairs(params@) =~= pre_view.push(bvs[i as int]));
                }
                assert(view_pairs(params@) =~= extra + bvs.take(i + 1).filter(bpred));
            }
            i = i + 1;
        }
        proof {
            assert(bvs.take(n as int) =~= bvs);
        }
        // override fields that are not reserved
        let ghost opred = over_kept();
        let ghost mid = extra + bvs.filter(bpred);
        let m = self.other_params.len();
        let mut j: usize = 0;
        proof {
            assert(ovs.take(0).filter(opred) =~= Seq::<(Seq<char>, Seq<char>)>::empty());
            assert(view_pairs(params@) =~= mid + ovs.take(0).filter(opred));
        }
        while j < m
            invariant
                j <= m,
                m == ovs.len(),
                self == old(self),
                ovs == self.other_params.pairs(),
                opred == over_kept(),
                view_pairs(params@) == mid + ovs.take(j as int).filter(opred),
            decreases m - j,
        {
            let entries = self.other_params.entries();
            let keep = !is_reserved_key(entries[j].0.as_str());
            proof {
                assert(ovs[j as int] == (entries@[j as int].0@, entries@[j as int].1@));
                assert(keep == opred(ovs[j as int]));
            }
            let ghost pre_view = view_pairs(params@);
            if keep {
                let key = entries[j].0.clone();
                let val = entries[j].1.clone();
                params.push((key, val));
            }
            proof {
                reveal(Seq::filter);
                assert(ovs.take(j + 1).drop_last() =~= ovs.take(j as int));
                assert(ovs.take(j + 1).last() == ovs[j as int]);
                assert(ovs.take(j + 1).filter(opred) == if opred(ovs[j as int]) {
                    ovs.take(j as int).filter(opred).push(ovs[j as int])
                } else {
                    ovs.take(j as int).filter(opred)
                });
                if keep {
                    assert(view_pairs(params@) =~= pre_view.push(ovs[j as int]));
                }
                assert(view_pairs(params@) =~= mid + ovs.take(j + 1).filter(opred));
            }
            j = j + 1;
        }
        proof {
            assert(ovs.take(m as int) =~= ovs);
            assert(view_pairs(params@) =~= merged_pairs(bvs, ovs, ts_v, method_v, biz_v));
        }
        // the override fields are single-use: consumed by this merge
        self.other_params.clear();
        let ghost merged = view_pairs(params@);
        sort_pairs(&mut params);
        proof {
            lemma_pair_le_total_ordering();
            merged.lemma_sort_by_ensures(pair_le_fn());
            lemma_sorted_unique(view_pairs(params@), merged.sort_by(pair_le_fn()), pair_le_fn());
        }
        params
    }

    /// Builds the sorted, signed parameter list of one call at the given
    /// timestamp, consuming the override fields.
    pub fn create_params_at(
        &mut self,
        timestamp: String,
        method: String,
        biz_content: Option<String>,
    ) -> (r: AlipayResult<Vec<(String, String)>>)
        requires
            old(self).wf(),
        ensures
            final(self).wf(),
            final(self).base_pairs() == old(self).base_pairs(),
            final(self).other_pairs() == Seq::<(Seq<char>, Seq<char>)>::empty(),
            final(self).signing_key() == old(self).signing_key(),
            final(self).verifying_key() == old(self).verifying_key(),
            final(self).sandbox_view() == old(self).sandbox_view(),
            (r is Ok) == rsa2_sign_ok(old(self).signing_key()),
            r matches Ok(v) ==> view_pairs(v@) == signed_pairs(
                old(self).signing_key(),
                merged_pairs(
                    old(self).base_pairs(),
                    old(self).other_pairs(),
                    timestamp@,
                    method@,
                    option_view(biz_content),
                ),
            ),
    {
        let mut params = self.merge_params(timestamp, method, biz_content);
        let signing_input = joined_string(&params);
        let signature = match self.sign(signing_input.as_str()) {
            Ok(s) => s,
            Err(e) => {
                return Err(e);
            },
        };
        params.push(("sign".to_owned(), signature));
        proof {
            assert(view_pairs(params@) =~= signed_pairs(
                old(self).signing_key(),
                merged_pairs(
                    old(self).base_pairs(),
                    old(self).other_pairs(),
                    timestamp@,
                    method@,
                    option_view(biz_content),
                ),
            ));
        }
        Ok(params)
    }

    /// Builds the sorted, signed parameter list of one call at the current
    /// moment, consuming the override fields.
    pub fn create_params(&mut self, method: String, biz_content: Option<String>) -> (r:
        AlipayResult<Vec<(String, String)>>)
        requires
            old(self).wf(),
        ensures
            final(self).wf(),
            final(self).base_pairs() == old(self).base_pairs(),
            final(self).signing_key() == old(self).signing_key(),
            final(self).verifying_key() == old(self).verifying_key(),
            final(self).sandbox_view() == old(self).sandbox_view(),
            final(self).other_pairs() == old(self).other_pairs() || final(self).other_pairs()
                == Seq::<(Seq<char>, Seq<char>)>::empty(),
            r matches Ok(v) ==> final(self).other_pairs() == Seq::<(Seq<char>, Seq<char>)>::empty(),
            r is Ok ==> rsa2_sign_ok(old(self).signing_key()),
            !rsa2_sign_ok(old(self).signing_key()) ==> r is Err,
            r matches Ok(v) ==> exists|t: u64|
                view_pairs(v@) == signed_pairs(
                    old(self).signing_key(),
                    merged_pairs(
                        old(self).base_pairs(),
                        old(self).other_pairs(),
                        datetime_chars(t as nat),
                        method@,
                        option_view(biz_content),
                    ),
                ),
    {
        let now = match datetime() {
            Ok(now) => now,
            Err(e) => {
                return Err(e);
            },
        };
        self.create_params_at(now, method, biz_content)
    }

    /// Builds the complete, signed, form-encoded request body for one call,
    /// consuming the override fields.
    pub fn build_params(&mut self, method: String, biz_content: Option<String>) -> (r:
        AlipayResult<String>)
        requires
            old(self).wf(),
        ensures
            final(self).wf(),
            final(self).base_pairs() == old(self).base_pairs(),
            final(self).signing_key() == old(self).signing_key(),
            final(self).verifying_key() == old(self).verifying_key(),
            final(self).sandbox_view() == old(self).sandbox_view(),
            r matches Ok(s) ==> final(self).other_pairs() == Seq::<(Seq<char>, Seq<char>)>::empty(),
            r is Ok ==> rsa2_sign_ok(old(self).signing_key()),
            !rsa2_sign_ok(old(self).signing_key()) ==> r is Err,
            r matches Ok(s) ==> exists|t: u64|
                s@ == form_urlencoded_of(
                    signed_pairs(
                        old(self).signing_key(),
                        merged_pairs(
                            old(self).base_pairs(),
                            old(self).other_pairs(),
                            datetime_chars(t as nat),
                            method@,
                            option_view(biz_content),
                        ),
                    ),
                ),
    {
        let params = match self.create_params(method, biz_content) {
            Ok(v) => v,
            Err(e) => {
                return Err(e);
            },
        };
        form_urlencode(&params)
    }

    /// Builds the signed parameter list for one call whose payload is given
    /// as a structured value: a payload that carries nothing (the absent
    /// marker, or an object all of whose members are absent) sends no
    /// `biz_content` at all; any other value is sent as its JSON text. The
    /// override fields are consumed exactly as by a post.
    pub fn generate_url_data(&mut self, method: String, biz_content: ParamValue) -> (r:
        AlipayResult<Vec<(String, String)>>)
        requires
            old(self).wf(),
        ensures
            final(self).wf(),
            final(self).base_pairs() == old(self).base_pairs(),
            final(self).signing_key() == old(self).signing_key(),
            final(self).verifying_key() == old(self).verifying_key(),
            final(self).sandbox_view() == old(self).sandbox_view(),
            r matches Ok(v) ==> final(self).other_pairs() == Seq::<(Seq<char>, Seq<char>)>::empty(),
            r is Ok ==> rsa2_sign_ok(old(self).signing_key()),
            !rsa2_sign_ok(old(self).signing_key()) ==> r is Err,
            r matches Ok(v) ==> exists|t: u64|
                view_pairs(v@) == signed_pairs(
                    old(self).signing_key(),
                    merged_pairs(
                        old(self).base_pairs(),
                        old(self).other_pairs(),
                        datetime_chars(t as nat),
                        method@,
                        if payload_absent(biz_content) {
                            None
                        } else {
                            Some(json_chars(biz_content))
                        },
                    ),
                ),
    {
        if biz_content.is_absent() {
            self.create_params(method, None)
        } else {
            let text = json_string(&biz_content);
            self.create_params(method, Some(text))
        }
    }
}

impl Sign for ClientWithParams {
    closed spec fn signing_key(&self) -> Seq<char> {
        self.private_key@
    }

    closed spec fn verifying_key(&self) -> Seq<char> {
        self.public_key@
    }

    fn sign(&self, params: &str) -> (r: AlipayResult<String>) {
        rsa_sha256_sign(self.private_key.as_str(), params)
    }

    fn verify(&self, source: &str, signature: &str) -> (r: AlipayResult<bool>) {
        rsa_sha256_verify(self.public_key.as_str(), source, signature)
    }
}

} // verus!

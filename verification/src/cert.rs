//! Credential lifecycle: configuration rules, issuance, validation,
//! lockout and rotation.
//!
//! A configuration template fixes the shape of a family of credentials —
//! access-key and secret rules, expiry, lockout tuning, how many may
//! coexist per item.  A credential binds an access key and secret to an
//! owning item under one configuration.  Lock state is never stored: it
//! is recomputed from the recorded failure timestamps at validation time.

use vstd::pervasive::VecAdditionalExecFns;
use vstd::prelude::*;
use vstd::string::is_ascii_spec_bytes;
use vstd::utf8::is_ascii_chars;

use crate::item::clone_path;
use crate::item::ItemStore;
use crate::paging::lemma_map_push;
use crate::paging::lemma_map_update;
use crate::result::RbumError;
use crate::scope::is_prefix;
use crate::scope::is_scope_admin;
use crate::scope::spec_prefix;
use crate::scope::spec_scope_admin;
use crate::scope::spec_visible;
use crate::scope::visible;
use crate::scope::RbumContext;
use crate::scope::RbumContextV;
use crate::table::lemma_first_where_at;
use crate::table::lemma_first_where_none;
use crate::table::lemma_ids_index_unique;
use crate::table::lemma_ids_push;
use crate::table::lemma_ids_update;
use crate::table::spec_first_where;
use crate::table::spec_ids_below;
use crate::table::spec_ids_unique;

verus! {

/// Default expiry: the sentinel meaning "effectively never expires".
pub const CERT_EXPIRE_NEVER: u64 = 2147483647;

/// Lifecycle status of a credential.  `Locked` is not a status: it is
/// derived from the failure history.
#[derive(Clone, Copy, Debug, PartialEq, Eq, Structural)]
pub enum RbumCertStatusKind {
    Pending,
    Enabled,
    Disabled,
}

/// Shape rule for an access key or secret: a character-count range and
/// an optional restriction to ASCII letters and digits.  Rules accept
/// ASCII strings only.
#[derive(Clone, Copy, Debug, PartialEq, Eq, Structural)]
pub struct FieldRule {
    pub min_len: usize,
    pub max_len: usize,
    pub alphanumeric_only: bool,
}

pub open spec fn spec_char_alnum(c: char) -> bool {
    ||| ('0' <= c && c <= '9')
    ||| ('a' <= c && c <= 'z')
    ||| ('A' <= c && c <= 'Z')
}

/// Does `s` satisfy the rule?
pub open spec fn spec_rule_ok(rule: FieldRule, s: Seq<char>) -> bool {
    &&& is_ascii_chars(s)
    &&& rule.min_len <= s.len() <= rule.max_len
    &&& (rule.alphanumeric_only ==> forall|i: int| 0 <= i < s.len() ==> spec_char_alnum(#[trigger] s[i]))
}

/// Checks a field against its rule.
pub fn check_rule(rule: &FieldRule, s: &str) -> (r: bool)
    ensures
        r == spec_rule_ok(*rule, s@),
{
    if !s.is_ascii() {
        return false;
    }
    proof {
        is_ascii_spec_bytes(s);
    }
    let bytes = s.as_bytes();
    if bytes.len() < rule.min_len || bytes.len() > rule.max_len {
        return false;
    }
    if rule.alphanumeric_only {
        let n = bytes.len();
        let mut i: usize = 0;
        while i < n
            invariant
                n == bytes@.len(),
                i <= n,
                bytes@ =~= Seq::new(s@.len(), |k: int| s@[k] as u8),
                is_ascii_chars(s@),
                rule.alphanumeric_only,
                forall|k: int| 0 <= k < i ==> spec_char_alnum(#[trigger] s@[k]),
            decreases n - i,
        {
            let b = bytes[i];
            let ok = (48 <= b && b <= 57) || (97 <= b && b <= 122) || (65 <= b && b <= 90);
            proof {
                assert(s@[i as int] <= '\u{7f}');
                assert(b == s@[i as int] as u8);
                assert(ok == spec_char_alnum(s@[i as int]));
            }
            if !ok {
                return false;
            }
            i += 1;
        }
    }
    true
}

/// Credential configuration template.
#[derive(Debug)]
pub struct RbumCertConf {
    pub id: u64,
    pub code: String,
    pub name: String,
    /// Free classification tag carried through listings.
    pub ext: String,
    pub ak_rule: FieldRule,
    pub sk_rule: FieldRule,
    /// A secret must be supplied at issuance.
    pub sk_need: bool,
    /// The secret is stored one-way: comparable, never shown.
    pub sk_encrypted: bool,
    /// The secret is produced per login (verification codes).
    pub sk_dynamic: bool,
    /// A rotated secret may equal the previous one.
    pub repeatable: bool,
    /// One access key may recur across credentials of this template.
    pub is_ak_repeatable: bool,
    /// Base credential of its domain; defaults then apply.
    pub is_basic: bool,
    /// Seconds from issuance to expiry.
    pub expire_sec: u64,
    /// Width of the failure window, in seconds.
    pub sk_lock_cycle_sec: u64,
    /// Failures within the window that trigger the lock; zero disables
    /// lockout.
    pub sk_lock_err_times: u8,
    /// Seconds the lock holds from the most recent failure.
    pub sk_lock_duration_sec: u64,
    /// Live credentials one item may hold under this template.
    pub coexist_num: u32,
    pub rel_domain_id: u64,
    pub rel_item_id: Option<u64>,
    pub own_paths: Vec<u64>,
    pub deleted: bool,
}

/// Mathematical image of a configuration.
#[verifier::ext_equal]
pub struct RbumCertConfV {
    pub id: u64,
    pub code: Seq<char>,
    pub name: Seq<char>,
    pub ext: Seq<char>,
    pub ak_rule: FieldRule,
    pub sk_rule: FieldRule,
    pub sk_need: bool,
    pub sk_encrypted: bool,
    pub sk_dynamic: bool,
    pub repeatable: bool,
    pub is_ak_repeatable: bool,
    pub is_basic: bool,
    pub expire_sec: u64,
    pub sk_lock_cycle_sec: u64,
    pub sk_lock_err_times: u8,
    pub sk_lock_duration_sec: u64,
    pub coexist_num: u32,
    pub rel_domain_id: u64,
    pub rel_item_id: Option<u64>,
    pub own_paths: Seq<u64>,
    pub deleted: bool,
}

impl View for RbumCertConf {
    type V = RbumCertConfV;

    open spec fn view(&self) -> RbumCertConfV {
        RbumCertConfV {
            id: self.id,
            code: self.code@,
            name: self.name@,
            ext: self.ext@,
            ak_rule: self.ak_rule,
            sk_rule: self.sk_rule,
            sk_need: self.sk_need,
            sk_encrypted: self.sk_encrypted,
            sk_dynamic: self.sk_dynamic,
            repeatable: self.repeatable,
            is_ak_repeatable: self.is_ak_repeatable,
            is_basic: self.is_basic,
            expire_sec: self.expire_sec,
            sk_lock_cycle_sec: self.sk_lock_cycle_sec,
            sk_lock_err_times: self.sk_lock_err_times,
            sk_lock_duration_sec: self.sk_lock_duration_sec,
            coexist_num: self.coexist_num,
            rel_domain_id: self.rel_domain_id,
            rel_item_id: self.rel_item_id,
            own_paths: self.own_paths@,
            deleted: self.deleted,
        }
    }
}

impl RbumCertConf {
    pub fn duplicate(&self) -> (r: RbumCertConf)
        ensures
            r@ == self@,
    {
        let r = RbumCertConf {
            id: self.id,
            code: self.code.clone(),
            name: self.name.clone(),
            ext: self.ext.clone(),
            ak_rule: self.ak_rule,
            sk_rule: self.sk_rule,
            sk_need: self.sk_need,
            sk_encrypted: self.sk_encrypted,
            sk_dynamic: self.sk_dynamic,
            repeatable: self.repeatable,
            is_ak_repeatable: self.is_ak_repeatable,
            is_basic: self.is_basic,
            expire_sec: self.expire_sec,
            sk_lock_cycle_sec: self.sk_lock_cycle_sec,
            sk_lock_err_times: self.sk_lock_err_times,
            sk_lock_duration_sec: self.sk_lock_duration_sec,
            coexist_num: self.coexist_num,
            rel_domain_id: self.rel_domain_id,
            rel_item_id: self.rel_item_id,
            own_paths: clone_path(&self.own_paths),
            deleted: self.deleted,
        };
        proof {
            assert(r@ =~= self@);
        }
        r
    }
}

/// A credential: an access key and stored secret bound to an item under
/// one configuration.
#[derive(Debug)]
pub struct RbumCert {
    pub id: u64,
    pub ak: String,
    /// The stored secret.  Only comparable through `validate`; shown by
    /// `show_sk` only where the configuration does not mark it one-way.
    pub sk: String,
    pub ext: String,
    pub status: RbumCertStatusKind,
    pub start_time: u64,
    pub end_time: u64,
    pub conf_id: u64,
    pub rel_item_id: u64,
    pub own_paths: Vec<u64>,
    /// Timestamps of failed validations, in call order.
    pub failures: Vec<u64>,
    pub deleted: bool,
}

/// Mathematical image of a credential.
#[verifier::ext_equal]
pub struct RbumCertV {
    pub id: u64,
    pub ak: Seq<char>,
    pub sk: Seq<char>,
    pub ext: Seq<char>,
    pub status: RbumCertStatusKind,
    pub start_time: u64,
    pub end_time: u64,
    pub conf_id: u64,
    pub rel_item_id: u64,
    pub own_paths: Seq<u64>,
    pub failures: Seq<u64>,
    pub deleted: bool,
}

impl View for RbumCert {
    type V = RbumCertV;

    open spec fn view(&self) -> RbumCertV {
        RbumCertV {
            id: self.id,
            ak: self.ak@,
            sk: self.sk@,
            ext: self.ext@,
            status: self.status,
            start_time: self.start_time,
            end_time: self.end_time,
            conf_id: self.conf_id,
            rel_item_id: self.rel_item_id,
            own_paths: self.own_paths@,
            failures: self.failures@,
            deleted: self.deleted,
        }
    }
}

impl RbumCert {
    pub fn duplicate(&self) -> (r: RbumCert)
        ensures
            r@ == self@,
    {
        let r = RbumCert {
            id: self.id,
            ak: self.ak.clone(),
            sk: self.sk.clone(),
            ext: self.ext.clone(),
            status: self.status,
            start_time: self.start_time,
            end_time: self.end_time,
            conf_id: self.conf_id,
            rel_item_id: self.rel_item_id,
            own_paths: clone_path(&self.own_paths),
            failures: clone_path(&self.failures),
            deleted: self.deleted,
        };
        proof {
            assert(r@ =~= self@);
        }
        r
    }
}

/// Expiry timestamp of a credential issued at `now`, clamped at the
/// largest representable time.
pub open spec fn spec_end_time(now: u64, expire_sec: u64) -> u64 {
    if now + expire_sec > u64::MAX {
        u64::MAX
    } else {
        (now + expire_sec) as u64
    }
}

/// Number of recorded failures within the window of width `cycle`
/// ending at `anchor`.
pub open spec fn spec_failures_in_window(fails: Seq<u64>, anchor: u64, cycle: u64) -> nat {
    fails.filter(|t: u64| t <= anchor && t + cycle >= anchor).len()
}

/// The derived lock state: a credential is locked while the failure
/// window ending at the most recent failure holds at least the
/// threshold, and the lock duration since that failure has not elapsed.
/// A zero threshold disables lockout.
pub open spec fn spec_locked(
    fails: Seq<u64>,
    err_times: u8,
    cycle: u64,
    duration: u64,
    now: u64,
) -> bool {
    &&& err_times > 0
    &&& fails.len() > 0
    &&& spec_failures_in_window(fails, fails.last(), cycle) >= err_times as nat
    &&& now <= fails.last() + duration
}

/// New values for a configuration; absent fields keep their value.  The
/// code and identity of a configuration are immutable.
pub struct RbumCertConfModifyReq {
    pub name: Option<String>,
    pub ak_rule: Option<FieldRule>,
    pub sk_rule: Option<FieldRule>,
    pub sk_need: Option<bool>,
    pub sk_encrypted: Option<bool>,
    pub repeatable: Option<bool>,
    pub is_basic: Option<bool>,
    pub expire_sec: Option<u64>,
    pub sk_lock_cycle_sec: Option<u64>,
    pub sk_lock_err_times: Option<u8>,
    pub sk_lock_duration_sec: Option<u64>,
    pub coexist_num: Option<u32>,
}

/// Mathematical image of a configuration modify request.
#[verifier::ext_equal]
pub struct RbumCertConfModifyReqV {
    pub name: Option<Seq<char>>,
    pub ak_rule: Option<FieldRule>,
    pub sk_rule: Option<FieldRule>,
    pub sk_need: Option<bool>,
    pub sk_encrypted: Option<bool>,
    pub repeatable: Option<bool>,
    pub is_basic: Option<bool>,
    pub expire_sec: Option<u64>,
    pub sk_lock_cycle_sec: Option<u64>,
    pub sk_lock_err_times: Option<u8>,
    pub sk_lock_duration_sec: Option<u64>,
    pub coexist_num: Option<u32>,
}

impl View for RbumCertConfModifyReq {
    type V = RbumCertConfModifyReqV;

    open spec fn view(&self) -> RbumCertConfModifyReqV {
        RbumCertConfModifyReqV {
            name: match self.name {
                Some(n) => Some(n@),
                None => None,
            },
            ak_rule: self.ak_rule,
            sk_rule: self.sk_rule,
            sk_need: self.sk_need,
            sk_encrypted: self.sk_encrypted,
            repeatable: self.repeatable,
            is_basic: self.is_basic,
            expire_sec: self.expire_sec,
            sk_lock_cycle_sec: self.sk_lock_cycle_sec,
            sk_lock_err_times: self.sk_lock_err_times,
            sk_lock_duration_sec: self.sk_lock_duration_sec,
            coexist_num: self.coexist_num,
        }
    }
}

/// The configuration `c` becomes when `req` is applied.
pub open spec fn spec_apply_conf_modify(
    c: RbumCertConfV,
    req: RbumCertConfModifyReqV,
) -> RbumCertConfV {
    RbumCertConfV {
        name: if req.name is Some {
            req.name->0
        } else {
            c.name
        },
        ak_rule: if req.ak_rule is Some {
            req.ak_rule->0
        } else {
            c.ak_rule
        },
        sk_rule: if req.sk_rule is Some {
            req.sk_rule->0
        } else {
            c.sk_rule
        },
        sk_need: if req.sk_need is Some {
            req.sk_need->0
        } else {
            c.sk_need
        },
        sk_encrypted: if req.sk_encrypted is Some {
            req.sk_encrypted->0
        } else {
            c.sk_encrypted
        },
        repeatable: if req.repeatable is Some {
            req.repeatable->0
        } else {
            c.repeatable
        },
        is_basic: if req.is_basic is Some {
            req.is_basic->0
        } else {
            c.is_basic
        },
        expire_sec: if req.expire_sec is Some {
            req.expire_sec->0
        } else {
            c.expire_sec
        },
        sk_lock_cycle_sec: if req.sk_lock_cycle_sec is Some {
            req.sk_lock_cycle_sec->0
        } else {
            c.sk_lock_cycle_sec
        },
        sk_lock_err_times: if req.sk_lock_err_times is Some {
            req.sk_lock_err_times->0
        } else {
            c.sk_lock_err_times
        },
        sk_lock_duration_sec: if req.sk_lock_duration_sec is Some {
            req.sk_lock_duration_sec->0
        } else {
            c.sk_lock_duration_sec
        },
        coexist_num: if req.coexist_num is Some {
            req.coexist_num->0
        } else {
            c.coexist_num
        },
        ..c
    }
}

/// No two live configurations of one domain share a code.
pub open spec fn spec_conf_codes_unique(s: Seq<RbumCertConfV>) -> bool {
    forall|i: int, j: int|
        0 <= i < j < s.len() && !s[i].deleted && !s[j].deleted && s[i].code == s[j].code
            && s[i].rel_domain_id == s[j].rel_domain_id ==> false
}

/// The credential ledger: configurations and credentials, one id
/// counter.
pub struct CredentialLedger {
    pub confs: Vec<RbumCertConf>,
    pub certs: Vec<RbumCert>,
    pub next_id: u64,
}

impl CredentialLedger {
    pub open spec fn confs_v(self) -> Seq<RbumCertConfV> {
        self.confs@.map_values(|c: RbumCertConf| c@)
    }

    pub open spec fn certs_v(self) -> Seq<RbumCertV> {
        self.certs@.map_values(|c: RbumCert| c@)
    }

    /// Is a live configuration registered under this id?
    pub open spec fn spec_conf_live(self, id: u64) -> bool {
        exists|i: int|
            0 <= i < self.confs_v().len() && (#[trigger] self.confs_v()[i]).id == id
                && !self.confs_v()[i].deleted
    }

    /// Unique ids below the counter; unique live codes per domain; every
    /// live credential's configuration is live.
    pub open spec fn wf(self) -> bool {
        &&& spec_ids_unique(self.confs_v(), |c: RbumCertConfV| c.id)
        &&& spec_ids_below(self.confs_v(), |c: RbumCertConfV| c.id, self.next_id)
        &&& spec_ids_unique(self.certs_v(), |c: RbumCertV| c.id)
        &&& spec_ids_below(self.certs_v(), |c: RbumCertV| c.id, self.next_id)
        &&& spec_conf_codes_unique(self.confs_v())
        &&& forall|i: int|
            0 <= i < self.certs_v().len() && !(#[trigger] self.certs_v()[i]).deleted
                ==> self.spec_conf_live(self.certs_v()[i].conf_id)
    }

    pub fn new() -> (r: CredentialLedger)
        ensures
            r.wf(),
            r.confs_v().len() == 0,
            r.certs_v().len() == 0,
            r.next_id == 1,
    {
        CredentialLedger { confs: Vec::new(), certs: Vec::new(), next_id: 1 }
    }

    pub open spec fn spec_has_conf(self, id: u64) -> bool {
        exists|i: int| 0 <= i < self.confs_v().len() && (#[trigger] self.confs_v()[i]).id == id
    }

    pub open spec fn spec_conf_idx(self, id: u64) -> int {
        choose|i: int| 0 <= i < self.confs_v().len() && (#[trigger] self.confs_v()[i]).id == id
    }

    /// The unique configuration record carrying `id`.
    pub open spec fn spec_conf(self, id: u64) -> RbumCertConfV {
        self.confs_v()[self.spec_conf_idx(id)]
    }

    pub open spec fn spec_has_cert(self, id: u64) -> bool {
        exists|i: int| 0 <= i < self.certs_v().len() && (#[trigger] self.certs_v()[i]).id == id
    }

    pub open spec fn spec_cert_idx(self, id: u64) -> int {
        choose|i: int| 0 <= i < self.certs_v().len() && (#[trigger] self.certs_v()[i]).id == id
    }

    /// The unique credential record carrying `id`.
    pub open spec fn spec_cert(self, id: u64) -> RbumCertV {
        self.certs_v()[self.spec_cert_idx(id)]
    }

    pub proof fn lemma_conf_at(self, i: int)
        requires
            self.wf(),
            0 <= i < self.confs_v().len(),
        ensures
            self.spec_has_conf(self.confs_v()[i].id),
            self.spec_conf_idx(self.confs_v()[i].id) == i,
            self.spec_conf(self.confs_v()[i].id) == self.confs_v()[i],
    {
        let id = self.confs_v()[i].id;
        assert(self.spec_has_conf(id));
        let j = self.spec_conf_idx(id);
        lemma_ids_index_unique(self.confs_v(), |c: RbumCertConfV| c.id, i, j);
    }

    pub proof fn lemma_cert_at(self, i: int)
        requires
            self.wf(),
            0 <= i < self.certs_v().len(),
        ensures
            self.spec_has_cert(self.certs_v()[i].id),
            self.spec_cert_idx(self.certs_v()[i].id) == i,
            self.spec_cert(self.certs_v()[i].id) == self.certs_v()[i],
    {
        let id = self.certs_v()[i].id;
        assert(self.spec_has_cert(id));
        let j = self.spec_cert_idx(id);
        lemma_ids_index_unique(self.certs_v(), |c: RbumCertV| c.id, i, j);
    }

    fn find_conf_idx(&self, id: u64) -> (r: Option<usize>)
        ensures
            match r {
                Some(i) => i < self.confs_v().len() && self.confs_v()[i as int].id == id,
                None => !self.spec_has_conf(id),
            },
    {
        let n = self.confs.len();
        let mut i: usize = 0;
        while i < n
            invariant
                n == self.confs@.len(),
                i <= n,
                forall|k: int| 0 <= k < i ==> (#[trigger] self.confs_v()[k]).id != id,
            decreases n - i,
        {
            if self.confs[i].id == id {
                return Some(i);
            }
            i += 1;
        }
        None
    }

    fn find_cert_idx(&self, id: u64) -> (r: Option<usize>)
        ensures
            match r {
                Some(i) => i < self.certs_v().len() && self.certs_v()[i as int].id == id,
                None => !self.spec_has_cert(id),
            },
    {
        let n = self.certs.len();
        let mut i: usize = 0;
        while i < n
            invariant
                n == self.certs@.len(),
                i <= n,
                forall|k: int| 0 <= k < i ==> (#[trigger] self.certs_v()[k]).id != id,
            decreases n - i,
        {
            if self.certs[i].id == id {
                return Some(i);
            }
            i += 1;
        }
        None
    }

    /// Is a live configuration of this domain already using the code?
    pub open spec fn spec_code_taken(self, code: Seq<char>, domain_id: u64) -> bool {
        exists|i: int|
            0 <= i < self.confs_v().len() && !(#[trigger] self.confs_v()[i]).deleted
                && self.confs_v()[i].code == code && self.confs_v()[i].rel_domain_id == domain_id
    }

    fn find_code_idx(&self, code: &String, domain_id: u64) -> (r: Option<usize>)
        ensures
            match r {
                Some(i) => {
                    &&& i < self.confs_v().len()
                    &&& !self.confs_v()[i as int].deleted
                    &&& self.confs_v()[i as int].code == code@
                    &&& self.confs_v()[i as int].rel_domain_id == domain_id
                },
                None => !self.spec_code_taken(code@, domain_id),
            },
    {
        let n = self.confs.len();
        let mut i: usize = 0;
        while i < n
            invariant
                n == self.confs@.len(),
                i <= n,
                forall|k: int|
                    0 <= k < i ==> !(!(#[trigger] self.confs_v()[k]).deleted
                        && self.confs_v()[k].code == code@ && self.confs_v()[k].rel_domain_id
                        == domain_id),
            decreases n - i,
        {
            let c = &self.confs[i];
            if !c.deleted && c.code == *code && c.rel_domain_id == domain_id {
                return Some(i);
            }
            i += 1;
        }
        None
    }

    /// Registers a configuration.  `NotFound` when its domain does not
    /// exist; `Conflict` when a live configuration of the domain already
    /// carries the code.  A missing expiry defaults to the never-expires
    /// sentinel.
    pub fn add_cert_conf(
        &mut self,
        items: &ItemStore,
        req: RbumCertConfAddReq,
        ctx: &RbumContext,
    ) -> (r: Result<u64, RbumError>)
        requires
            old(self).wf(),
            old(self).next_id < u64::MAX,
        ensures
            final(self).wf(),
            final(self).certs_v() == old(self).certs_v(),
            match r {
                Ok(id) => {
                    &&& items.spec_has_domain(req.rel_domain_id)
                    &&& !old(self).spec_code_taken(req.code@, req.rel_domain_id)
                    &&& id == old(self).next_id
                    &&& final(self).next_id == old(self).next_id + 1
                    &&& final(self).confs_v() =~= old(self).confs_v().push(
                        (RbumCertConfV {
                            id: id,
                            code: req.code@,
                            name: req.name@,
                            ext: req.ext@,
                            ak_rule: req.ak_rule,
                            sk_rule: req.sk_rule,
                            sk_need: req.sk_need,
                            sk_encrypted: req.sk_encrypted,
                            sk_dynamic: req.sk_dynamic,
                            repeatable: req.repeatable,
                            is_ak_repeatable: req.is_ak_repeatable,
                            is_basic: req.is_basic,
                            expire_sec: if req.expire_sec is Some {
                                req.expire_sec->0
                            } else {
                                CERT_EXPIRE_NEVER
                            },
                            sk_lock_cycle_sec: req.sk_lock_cycle_sec,
                            sk_lock_err_times: req.sk_lock_err_times,
                            sk_lock_duration_sec: req.sk_lock_duration_sec,
                            coexist_num: req.coexist_num,
                            rel_domain_id: req.rel_domain_id,
                            rel_item_id: req.rel_item_id,
                            own_paths: ctx@.own_paths,
                            deleted: false,
                        }),
                    )
                },
                Err(e) => {
                    &&& (e == RbumError::NotFound || e == RbumError::Conflict)
                    &&& *final(self) == *old(self)
                    &&& (e == RbumError::NotFound <==> !items.spec_has_domain(req.rel_domain_id))
                    &&& (e == RbumError::Conflict <==> items.spec_has_domain(req.rel_domain_id)
                        && old(self).spec_code_taken(req.code@, req.rel_domain_id))
                },
            },
    {
        if !items.has_domain(req.rel_domain_id) {
            return Err(RbumError::NotFound);
        }
        if self.find_code_idx(&req.code, req.rel_domain_id).is_some() {
            proof {
                let ghost w = choose|i: int|
                    0 <= i < self.confs_v().len() && !(#[trigger] self.confs_v()[i]).deleted
                        && self.confs_v()[i].code == req.code@ && self.confs_v()[i].rel_domain_id
                        == req.rel_domain_id;
            }
            return Err(RbumError::Conflict);
        }
        let id = self.next_id;
        self.next_id = self.next_id + 1;
        let rec = RbumCertConf {
            id,
            code: req.code,
            name: req.name,
            ext: req.ext,
            ak_rule: req.ak_rule,
            sk_rule: req.sk_rule,
            sk_need: req.sk_need,
            sk_encrypted: req.sk_encrypted,
            sk_dynamic: req.sk_dynamic,
            repeatable: req.repeatable,
            is_ak_repeatable: req.is_ak_repeatable,
            is_basic: req.is_basic,
            expire_sec: match req.expire_sec {
                Some(v) => v,
                None => CERT_EXPIRE_NEVER,
            },
            sk_lock_cycle_sec: req.sk_lock_cycle_sec,
            sk_lock_err_times: req.sk_lock_err_times,
            sk_lock_duration_sec: req.sk_lock_duration_sec,
            coexist_num: req.coexist_num,
            rel_domain_id: req.rel_domain_id,
            rel_item_id: req.rel_item_id,
            own_paths: clone_path(&ctx.own_paths),
            deleted: false,
        };
        proof {
            lemma_map_push(self.confs@, |c: RbumCertConf| c@, rec);
            lemma_ids_push(self.confs_v(), |c: RbumCertConfV| c.id, id, rec@, self.next_id);
            let t = self.confs_v().push(rec@);
            assert forall|i: int, j: int|
                0 <= i < j < t.len() && !t[i].deleted && !t[j].deleted && t[i].code == t[j].code
                    && t[i].rel_domain_id == t[j].rel_domain_id implies false by {
                if j < self.confs_v().len() {
                    assert(spec_conf_codes_unique(self.confs_v()));
                } else {
                    assert(self.spec_code_taken(req.code@, req.rel_domain_id));
                }
            }
        }
        let ghost pre = *self;
        self.confs.push(rec);
        proof {
            assert forall|i: int|
                0 <= i < self.certs_v().len() && !(#[trigger] self.certs_v()[i]).deleted implies self.spec_conf_live(
                self.certs_v()[i].conf_id,
            ) by {
                assert(pre.spec_conf_live(pre.certs_v()[i].conf_id));
                let w = choose|j: int|
                    0 <= j < pre.confs_v().len() && (#[trigger] pre.confs_v()[j]).id
                        == pre.certs_v()[i].conf_id && !pre.confs_v()[j].deleted;
                assert(self.confs_v()[w].id == self.certs_v()[i].conf_id && !self.confs_v()[
                    w
                ].deleted);
            }
        }
        Ok(id)
    }

    /// Is the configuration live and inside the caller's sight?
    pub open spec fn spec_conf_visible(self, id: u64, ctx: RbumContextV) -> bool {
        &&& self.spec_has_conf(id)
        &&& !self.spec_conf(id).deleted
        &&& spec_visible(ctx.own_paths, self.spec_conf(id).own_paths, 0, false)
    }

    /// Returns the configuration `id` resolves to under the caller's
    /// sight.
    pub fn get_cert_conf(&self, id: u64, ctx: &RbumContext) -> (r: Result<RbumCertConf, RbumError>)
        requires
            self.wf(),
        ensures
            match r {
                Ok(c) => self.spec_conf_visible(id, ctx@) && c@ == self.spec_conf(id),
                Err(e) => e == RbumError::NotFound && !self.spec_conf_visible(id, ctx@),
            },
    {
        match self.find_conf_idx(id) {
            None => Err(RbumError::NotFound),
            Some(i) => {
                proof {
                    self.lemma_conf_at(i as int);
                }
                let c = &self.confs[i];
                if c.deleted {
                    return Err(RbumError::NotFound);
                }
                if !visible(ctx, &c.own_paths, 0, false) {
                    return Err(RbumError::NotFound);
                }
                Ok(c.duplicate())
            },
        }
    }

    /// Applies `req` to the configuration; identity and code stay as
    /// they are.
    pub fn modify_cert_conf(
        &mut self,
        id: u64,
        req: RbumCertConfModifyReq,
        ctx: &RbumContext,
    ) -> (r: Result<(), RbumError>)
        requires
            old(self).wf(),
        ensures
            final(self).wf(),
            final(self).certs_v() == old(self).certs_v(),
            final(self).next_id == old(self).next_id,
            match r {
                Ok(_) => {
                    &&& old(self).spec_conf_visible(id, ctx@)
                    &&& spec_scope_admin(ctx@.own_paths, old(self).spec_conf(id).own_paths)
                    &&& final(self).confs_v() =~= old(self).confs_v().update(
                        old(self).spec_conf_idx(id),
                        spec_apply_conf_modify(old(self).spec_conf(id), req@),
                    )
                },
                Err(e) => {
                    &&& (e == RbumError::NotFound || e == RbumError::Forbidden)
                    &&& *final(self) == *old(self)
                    &&& (e == RbumError::NotFound <==> !old(self).spec_conf_visible(id, ctx@))
                    &&& (e == RbumError::Forbidden <==> old(self).spec_conf_visible(id, ctx@)
                        && !spec_scope_admin(ctx@.own_paths, old(self).spec_conf(id).own_paths))
                },
            },
    {
        let i = match self.find_conf_idx(id) {
            None => {
                return Err(RbumError::NotFound);
            },
            Some(i) => i,
        };
        proof {
            self.lemma_conf_at(i as int);
        }
        let c = &self.confs[i];
        if c.deleted {
            return Err(RbumError::NotFound);
        }
        if !visible(ctx, &c.own_paths, 0, false) {
            return Err(RbumError::NotFound);
        }
        if !is_scope_admin(ctx, &c.own_paths) {
            return Err(RbumError::Forbidden);
        }
        let updated = RbumCertConf {
            id: c.id,
            code: c.code.clone(),
            name: match req.name {
                Some(n) => n,
                None => c.name.clone(),
            },
            ext: c.ext.clone(),
            ak_rule: match req.ak_rule {
                Some(v) => v,
                None => c.ak_rule,
            },
            sk_rule: match req.sk_rule {
                Some(v) => v,
                None => c.sk_rule,
            },
            sk_need: match req.sk_need {
                Some(v) => v,
                None => c.sk_need,
            },
            sk_encrypted: match req.sk_encrypted {
                Some(v) => v,
                None => c.sk_encrypted,
            },
            sk_dynamic: c.sk_dynamic,
            repeatable: match req.repeatable {
                Some(v) => v,
                None => c.repeatable,
            },
            is_ak_repeatable: c.is_ak_repeatable,
            is_basic: match req.is_basic {
                Some(v) => v,
                None => c.is_basic,
            },
            expire_sec: match req.expire_sec {
                Some(v) => v,
                None => c.expire_sec,
            },
            sk_lock_cycle_sec: match req.sk_lock_cycle_sec {
                Some(v) => v,
                None => c.sk_lock_cycle_sec,
            },
            sk_lock_err_times: match req.sk_lock_err_times {
                Some(v) => v,
                None => c.sk_lock_err_times,
            },
            sk_lock_duration_sec: match req.sk_lock_duration_sec {
                Some(v) => v,
                None => c.sk_lock_duration_sec,
            },
            coexist_num: match req.coexist_num {
                Some(v) => v,
                None => c.coexist_num,
            },
            rel_domain_id: c.rel_domain_id,
            rel_item_id: c.rel_item_id,
            own_paths: clone_path(&c.own_paths),
            deleted: c.deleted,
        };
        let ghost pre = *self;
        proof {
            assert(updated@ =~= spec_apply_conf_modify(old(self).spec_conf(id), req@));
            lemma_map_update(self.confs@, |c: RbumCertConf| c@, i as int, updated);
            lemma_ids_update(
                self.confs_v(),
                |c: RbumCertConfV| c.id,
                self.next_id,
                i as int,
                updated@,
            );
        }
        self.confs.set(i, updated);
        proof {
            assert forall|p: int, q: int|
                0 <= p < q < self.confs_v().len() && !self.confs_v()[p].deleted
                    && !self.confs_v()[q].deleted && self.confs_v()[p].code == self.confs_v()[
                q
            ].code && self.confs_v()[p].rel_domain_id == self.confs_v()[
                q
            ].rel_domain_id implies false by {
                assert(spec_conf_codes_unique(pre.confs_v()));
                assert(!pre.confs_v()[p].deleted && !pre.confs_v()[q].deleted);
                assert(pre.confs_v()[p].code == pre.confs_v()[q].code);
                assert(pre.confs_v()[p].rel_domain_id == pre.confs_v()[q].rel_domain_id);
            }
            assert forall|k: int|
                0 <= k < self.certs_v().len() && !(#[trigger] self.certs_v()[k]).deleted implies self.spec_conf_live(
                self.certs_v()[k].conf_id,
            ) by {
                assert(pre.spec_conf_live(pre.certs_v()[k].conf_id));
                let w = choose|j: int|
                    0 <= j < pre.confs_v().len() && (#[trigger] pre.confs_v()[j]).id
                        == pre.certs_v()[k].conf_id && !pre.confs_v()[j].deleted;
                assert(self.confs_v()[w].id == self.certs_v()[k].conf_id && !self.confs_v()[
                    w
                ].deleted);
            }
        }
        Ok(())
    }

    /// Is any live credential issued under the configuration?
    pub open spec fn spec_conf_in_use(self, id: u64) -> bool {
        exists|i: int|
            0 <= i < self.certs_v().len() && !(#[trigger] self.certs_v()[i]).deleted
                && self.certs_v()[i].conf_id == id
    }

    fn find_cert_of_conf(&self, conf_id: u64) -> (r: Option<usize>)
        ensures
            match r {
                Some(i) => {
                    &&& i < self.certs_v().len()
                    &&& !self.certs_v()[i as int].deleted
                    &&& self.certs_v()[i as int].conf_id == conf_id
                },
                None => !self.spec_conf_in_use(conf_id),
            },
    {
        let n = self.certs.len();
        let mut i: usize = 0;
        while i < n
            invariant
                n == self.certs@.len(),
                i <= n,
                forall|k: int|
                    0 <= k < i ==> !(!(#[trigger] self.certs_v()[k]).deleted && self.certs_v()[
                        k
                    ].conf_id == conf_id),
            decreases n - i,
        {
            let c = &self.certs[i];
            if !c.deleted && c.conf_id == conf_id {
                return Some(i);
            }
            i += 1;
        }
        None
    }

    /// Soft-deletes the configuration.  Refused with `Conflict` while a
    /// live credential is still issued under it.
    pub fn delete_cert_conf(&mut self, id: u64, ctx: &RbumContext) -> (r: Result<u64, RbumError>)
        requires
            old(self).wf(),
        ensures
            final(self).wf(),
            final(self).certs_v() == old(self).certs_v(),
            final(self).next_id == old(self).next_id,
            match r {
                Ok(n) => {
                    &&& n == 1
                    &&& old(self).spec_conf_visible(id, ctx@)
                    &&& spec_scope_admin(ctx@.own_paths, old(self).spec_conf(id).own_paths)
                    &&& !old(self).spec_conf_in_use(id)
                    &&& final(self).confs_v() =~= old(self).confs_v().update(
                        old(self).spec_conf_idx(id),
                        (RbumCertConfV { deleted: true, ..old(self).spec_conf(id) }),
                    )
                },
                Err(e) => {
                    &&& (e == RbumError::NotFound || e == RbumError::Forbidden || e == RbumError::Conflict)
                    &&& *final(self) == *old(self)
                    &&& (e == RbumError::NotFound <==> !old(self).spec_conf_visible(id, ctx@))
                    &&& (e == RbumError::Forbidden <==> old(self).spec_conf_visible(id, ctx@)
                        && !spec_scope_admin(ctx@.own_paths, old(self).spec_conf(id).own_paths))
                    &&& (e == RbumError::Conflict <==> old(self).spec_conf_visible(id, ctx@)
                        && spec_scope_admin(ctx@.own_paths, old(self).spec_conf(id).own_paths)
                        && old(self).spec_conf_in_use(id))
                },
            },
    {
        let i = match self.find_conf_idx(id) {
            None => {
                return Err(RbumError::NotFound);
            },
            Some(i) => i,
        };
        proof {
            self.lemma_conf_at(i as int);
        }
        let c = &self.confs[i];
        if c.deleted {
            return Err(RbumError::NotFound);
        }
        if !visible(ctx, &c.own_paths, 0, false) {
            return Err(RbumError::NotFound);
        }
        if !is_scope_admin(ctx, &c.own_paths) {
            return Err(RbumError::Forbidden);
        }
        if self.find_cert_of_conf(id).is_some() {
            return Err(RbumError::Conflict);
        }
        let mut updated = c.duplicate();
        updated.deleted = true;
        let ghost pre = *self;
        proof {
            assert(updated@ =~= (RbumCertConfV { deleted: true, ..old(self).spec_conf(id) }));
            lemma_map_update(self.confs@, |c: RbumCertConf| c@, i as int, updated);
            lemma_ids_update(
                self.confs_v(),
                |c: RbumCertConfV| c.id,
                self.next_id,
                i as int,
                updated@,
            );
        }
        self.confs.set(i, updated);
        proof {
            assert forall|p: int, q: int|
                0 <= p < q < self.confs_v().len() && !self.confs_v()[p].deleted
                    && !self.confs_v()[q].deleted && self.confs_v()[p].code == self.confs_v()[
                q
            ].code && self.confs_v()[p].rel_domain_id == self.confs_v()[
                q
            ].rel_domain_id implies false by {
                assert(spec_conf_codes_unique(pre.confs_v()));
                assert(!pre.confs_v()[p].deleted && !pre.confs_v()[q].deleted);
                assert(pre.confs_v()[p].code == pre.confs_v()[q].code);
                assert(pre.confs_v()[p].rel_domain_id == pre.confs_v()[q].rel_domain_id);
            }
            assert forall|k: int|
                0 <= k < self.certs_v().len() && !(#[trigger] self.certs_v()[k]).deleted implies self.spec_conf_live(
                self.certs_v()[k].conf_id,
            ) by {
                assert(pre.spec_conf_live(pre.certs_v()[k].conf_id));
                let w = choose|j: int|
                    0 <= j < pre.confs_v().len() && (#[trigger] pre.confs_v()[j]).id
                        == pre.certs_v()[k].conf_id && !pre.confs_v()[j].deleted;
                if w == i {
                    assert(pre.certs_v()[k].conf_id == id);
                    assert(pre.spec_conf_in_use(id));
                } else {
                    assert(self.confs_v()[w].id == self.certs_v()[k].conf_id && !self.confs_v()[
                        w
                    ].deleted);
                }
            }
        }
        Ok(1)
    }
}

/// Is the lock in force at `now`?
fn locked_at(failures: &Vec<u64>, err_times: u8, cycle: u64, duration: u64, now: u64) -> (r: bool)
    ensures
        r == spec_locked(failures@, err_times, cycle, duration, now),
{
    if err_times == 0 {
        return false;
    }
    let n = failures.len();
    if n == 0 {
        return false;
    }
    let last = failures[n - 1];
    let ghost pred = |t: u64| t <= last && t + cycle >= last;
    let mut count: usize = 0;
    let mut i: usize = 0;
    while i < n
        invariant
            n == failures@.len(),
            i <= n,
            last == failures@.last(),
            count == failures@.subrange(0, i as int).filter(pred).len(),
            count <= i,
            pred == (|t: u64| t <= last && t + cycle >= last),
        decreases n - i,
    {
        let t = failures[i];
        let in_window = t <= last && last - t <= cycle;
        proof {
            assert(in_window == pred(failures@[i as int]));
            crate::paging::lemma_filter_take_push(failures@, pred, i as int);
        }
        if in_window {
            count += 1;
        }
        i += 1;
    }
    proof {
        assert(failures@.subrange(0, n as int) =~= failures@);
    }
    if count < err_times as usize {
        return false;
    }
    if now <= last {
        true
    } else {
        now - last <= duration
    }
}

/// Issuance request for a credential.
pub struct RbumCertAddReq {
    pub ak: String,
    /// The secret; may be absent where the configuration does not
    /// require one.
    pub sk: Option<String>,
    pub ext: String,
    pub status: RbumCertStatusKind,
    pub conf_id: u64,
    pub rel_item_id: u64,
}

/// Mathematical image of a credential issuance request.
#[verifier::ext_equal]
pub struct RbumCertAddReqV {
    pub ak: Seq<char>,
    pub sk: Option<Seq<char>>,
    pub ext: Seq<char>,
    pub status: RbumCertStatusKind,
    pub conf_id: u64,
    pub rel_item_id: u64,
}

impl View for RbumCertAddReq {
    type V = RbumCertAddReqV;

    open spec fn view(&self) -> RbumCertAddReqV {
        RbumCertAddReqV {
            ak: self.ak@,
            sk: match self.sk {
                Some(s) => Some(s@),
                None => None,
            },
            ext: self.ext@,
            status: self.status,
            conf_id: self.conf_id,
            rel_item_id: self.rel_item_id,
        }
    }
}

/// Do an issuance request's fields satisfy the configuration's rules?
pub open spec fn spec_cert_fields_ok(conf: RbumCertConfV, req: RbumCertAddReqV) -> bool {
    &&& spec_rule_ok(conf.ak_rule, req.ak)
    &&& (conf.sk_need ==> req.sk is Some)
    &&& (req.sk is Some ==> spec_rule_ok(conf.sk_rule, req.sk->0))
}

/// Does the live credential `c` carry this access key under this
/// configuration?
pub open spec fn spec_cert_ak_match(c: RbumCertV, ak: Seq<char>, conf_id: u64) -> bool {
    &&& !c.deleted
    &&& c.ak == ak
    &&& c.conf_id == conf_id
}

/// Can `c` answer a validation of `(ak, conf_id)` issued from a scope
/// whose path is `scope`?  The credential must live at or above that
/// scope.
pub open spec fn spec_cert_match(c: RbumCertV, ak: Seq<char>, conf_id: u64, scope: Seq<u64>) -> bool {
    &&& spec_cert_ak_match(c, ak, conf_id)
    &&& spec_prefix(c.own_paths, scope)
}

impl CredentialLedger {
    /// Does a live credential already carry `(ak, conf_id)`?
    pub open spec fn spec_ak_taken(self, ak: Seq<char>, conf_id: u64) -> bool {
        exists|i: int|
            0 <= i < self.certs_v().len() && spec_cert_ak_match(
                #[trigger] self.certs_v()[i],
                ak,
                conf_id,
            )
    }

    /// The live credentials one item holds under one configuration.
    pub open spec fn spec_live_certs_of(self, conf_id: u64, item_id: u64) -> Seq<RbumCertV> {
        self.certs_v().filter(
            |c: RbumCertV| !c.deleted && c.conf_id == conf_id && c.rel_item_id == item_id,
        )
    }

    fn find_live_ak(&self, ak: &String, conf_id: u64) -> (r: Option<usize>)
        ensures
            match r {
                Some(i) => i < self.certs_v().len() && spec_cert_ak_match(
                    self.certs_v()[i as int],
                    ak@,
                    conf_id,
                ),
                None => !self.spec_ak_taken(ak@, conf_id),
            },
    {
        let n = self.certs.len();
        let mut i: usize = 0;
        while i < n
            invariant
                n == self.certs@.len(),
                i <= n,
                forall|k: int|
                    0 <= k < i ==> !spec_cert_ak_match(#[trigger] self.certs_v()[k], ak@, conf_id),
            decreases n - i,
        {
            let c = &self.certs[i];
            if !c.deleted && c.ak == *ak && c.conf_id == conf_id {
                return Some(i);
            }
            i += 1;
        }
        None
    }

    fn count_live_of(&self, conf_id: u64, item_id: u64) -> (r: usize)
        ensures
            r == self.spec_live_certs_of(conf_id, item_id).len(),
    {
        let ghost pred = |c: RbumCertV| !c.deleted && c.conf_id == conf_id && c.rel_item_id
            == item_id;
        let n = self.certs.len();
        let mut count: usize = 0;
        let mut i: usize = 0;
        while i < n
            invariant
                n == self.certs@.len(),
                i <= n,
                count == self.certs_v().subrange(0, i as int).filter(pred).len(),
                count <= i,
                pred == (|c: RbumCertV| !c.deleted && c.conf_id == conf_id && c.rel_item_id
                    == item_id),
            decreases n - i,
        {
            let c = &self.certs[i];
            let m = !c.deleted && c.conf_id == conf_id && c.rel_item_id == item_id;
            proof {
                assert(m == pred(self.certs_v()[i as int]));
                crate::paging::lemma_filter_take_push(self.certs_v(), pred, i as int);
            }
            if m {
                count += 1;
            }
            i += 1;
        }
        proof {
            assert(self.certs_v().subrange(0, n as int) =~= self.certs_v());
        }
        count
    }

    /// Issues a credential under `req.conf_id` for `req.rel_item_id`.
    /// `NotFound` when the configuration is not live; `BadRequest` when
    /// the access key or secret breaks the configuration's rules or a
    /// required secret is missing; `Conflict` when the access key is
    /// already taken under a non-repeatable configuration or the item's
    /// coexistence allowance is used up.
    pub fn add_cert(&mut self, req: RbumCertAddReq, ctx: &RbumContext, now: u64) -> (r: Result<
        u64,
        RbumError,
    >)
        requires
            old(self).wf(),
            old(self).next_id < u64::MAX,
        ensures
            final(self).wf(),
            final(self).confs_v() == old(self).confs_v(),
            ({
                let conf_live = old(self).spec_conf_live(req.conf_id);
                let conf = old(self).spec_conf(req.conf_id);
                let fields_ok = spec_cert_fields_ok(conf, req@);
                let dup = !conf.is_ak_repeatable && old(self).spec_ak_taken(req.ak@, req.conf_id);
                let full = old(self).spec_live_certs_of(req.conf_id, req.rel_item_id).len()
                    >= conf.coexist_num;
                match r {
                    Ok(id) => {
                        &&& conf_live
                        &&& fields_ok
                        &&& !dup
                        &&& !full
                        &&& id == old(self).next_id
                        &&& final(self).next_id == old(self).next_id + 1
                        &&& final(self).certs_v() =~= old(self).certs_v().push(
                            (RbumCertV {
                                id: id,
                                ak: req.ak@,
                                sk: if req.sk is Some {
                                    req.sk->0@
                                } else {
                                    Seq::<char>::empty()
                                },
                                ext: req.ext@,
                                status: req.status,
                                start_time: now,
                                end_time: spec_end_time(now, conf.expire_sec),
                                conf_id: req.conf_id,
                                rel_item_id: req.rel_item_id,
                                own_paths: ctx@.own_paths,
                                failures: Seq::<u64>::empty(),
                                deleted: false,
                            }),
                        )
                    },
                    Err(e) => {
                        &&& (e == RbumError::NotFound || e == RbumError::BadRequest || e == RbumError::Conflict)
                        &&& *final(self) == *old(self)
                        &&& (e == RbumError::NotFound <==> !conf_live)
                        &&& (e == RbumError::BadRequest <==> conf_live && !fields_ok)
                        &&& (e == RbumError::Conflict <==> conf_live && fields_ok && (dup || full))
                    },
                }
            }),
    {
        let j = match self.find_live_conf_idx(req.conf_id) {
            None => {
                return Err(RbumError::NotFound);
            },
            Some(j) => j,
        };
        proof {
            self.lemma_conf_at(j as int);
            assert(self.spec_conf_live(req.conf_id));
        }
        let ak_rule = self.confs[j].ak_rule;
        let sk_rule = self.confs[j].sk_rule;
        let sk_need = self.confs[j].sk_need;
        let is_ak_rep = self.confs[j].is_ak_repeatable;
        let coexist = self.confs[j].coexist_num;
        let expire = self.confs[j].expire_sec;
        if !check_rule(&ak_rule, req.ak.as_str()) {
            return Err(RbumError::BadRequest);
        }
        match &req.sk {
            None => {
                if sk_need {
                    return Err(RbumError::BadRequest);
                }
            },
            Some(s) => {
                if !check_rule(&sk_rule, s.as_str()) {
                    return Err(RbumError::BadRequest);
                }
            },
        }
        if !is_ak_rep && self.find_live_ak(&req.ak, req.conf_id).is_some() {
            return Err(RbumError::Conflict);
        }
        if self.count_live_of(req.conf_id, req.rel_item_id) >= coexist as usize {
            return Err(RbumError::Conflict);
        }
        let end_time: u64 = if expire > u64::MAX - now {
            u64::MAX
        } else {
            now + expire
        };
        let id = self.next_id;
        self.next_id = self.next_id + 1;
        let rec = RbumCert {
            id,
            ak: req.ak,
            sk: match req.sk {
                Some(s) => s,
                None => String::new(),
            },
            ext: req.ext,
            status: req.status,
            start_time: now,
            end_time,
            conf_id: req.conf_id,
            rel_item_id: req.rel_item_id,
            own_paths: clone_path(&ctx.own_paths),
            failures: Vec::new(),
            deleted: false,
        };
        proof {
            lemma_map_push(self.certs@, |c: RbumCert| c@, rec);
            lemma_ids_push(self.certs_v(), |c: RbumCertV| c.id, id, rec@, self.next_id);
        }
        let ghost pre = *self;
        self.certs.push(rec);
        proof {
            assert forall|k: int|
                0 <= k < self.certs_v().len() && !(#[trigger] self.certs_v()[k]).deleted implies self.spec_conf_live(
                self.certs_v()[k].conf_id,
            ) by {
                if k < pre.certs_v().len() {
                    assert(pre.spec_conf_live(pre.certs_v()[k].conf_id));
                    let w = choose|p: int|
                        0 <= p < pre.confs_v().len() && (#[trigger] pre.confs_v()[p]).id
                            == pre.certs_v()[k].conf_id && !pre.confs_v()[p].deleted;
                    assert(self.confs_v()[w].id == self.certs_v()[k].conf_id && !self.confs_v()[
                        w
                    ].deleted);
                } else {
                    assert(self.confs_v()[j as int].id == self.certs_v()[k].conf_id
                        && !self.confs_v()[j as int].deleted);
                }
            }
        }
        Ok(id)
    }

    fn find_live_conf_idx(&self, id: u64) -> (r: Option<usize>)
        ensures
            match r {
                Some(i) => {
                    &&& i < self.confs_v().len()
                    &&& self.confs_v()[i as int].id == id
                    &&& !self.confs_v()[i as int].deleted
                },
                None => !self.spec_conf_live(id),
            },
    {
        let n = self.confs.len();
        let mut i: usize = 0;
        while i < n
            invariant
                n == self.confs@.len(),
                i <= n,
                forall|k: int|
                    0 <= k < i ==> !((#[trigger] self.confs_v()[k]).id == id && !self.confs_v()[
                        k
                    ].deleted),
            decreases n - i,
        {
            let c = &self.confs[i];
            if c.id == id && !c.deleted {
                return Some(i);
            }
            i += 1;
        }
        None
    }

    /// What a validation of `(ak, conf_id)` from scope `scope` resolves
    /// to: the first live credential carrying the key at or above the
    /// scope.
    pub open spec fn spec_validate_target(
        self,
        ak: Seq<char>,
        conf_id: u64,
        scope: Seq<u64>,
    ) -> Option<int> {
        spec_first_where(self.certs_v(), |c: RbumCertV| spec_cert_match(c, ak, conf_id, scope))
    }

    fn find_validate_target(&self, ak: &String, conf_id: u64, scope_paths: &Vec<u64>) -> (r: Option<
        usize,
    >)
        ensures
            match r {
                Some(i) => self.spec_validate_target(ak@, conf_id, scope_paths@) == Some(i as int),
                None => self.spec_validate_target(ak@, conf_id, scope_paths@) is None,
            },
    {
        let ghost pred = |c: RbumCertV| spec_cert_match(c, ak@, conf_id, scope_paths@);
        let n = self.certs.len();
        let mut i: usize = 0;
        while i < n
            invariant
                n == self.certs@.len(),
                i <= n,
                forall|k: int| 0 <= k < i ==> !pred(#[trigger] self.certs_v()[k]),
                pred == (|c: RbumCertV| spec_cert_match(c, ak@, conf_id, scope_paths@)),
            decreases n - i,
        {
            let c = &self.certs[i];
            let m = !c.deleted && c.ak == *ak && c.conf_id == conf_id && is_prefix(
                &c.own_paths,
                scope_paths,
            );
            proof {
                assert(m == pred(self.certs_v()[i as int]));
            }
            if m {
                proof {
                    lemma_first_where_at(self.certs_v(), pred, i as int);
                }
                return Some(i);
            }
            i += 1;
        }
        proof {
            lemma_first_where_none(self.certs_v(), pred);
        }
        None
    }

    /// Validates the secret presented for `(ak, conf_id)` from the scope
    /// whose path is `scope_paths`, and returns the owning item's id.
    ///
    /// `NotFound` when no live credential carries the key there.  The
    /// attempt is refused with `Unauthorized` — without touching the
    /// failure history — while the credential is not enabled, is past its
    /// expiry, or is locked out.  A wrong secret records a failure at
    /// `now` and returns `Unauthorized`; the right secret clears the
    /// failure history.
    pub fn validate(
        &mut self,
        ak: &String,
        sk: &String,
        conf_id: u64,
        scope_paths: &Vec<u64>,
        now: u64,
    ) -> (r: Result<u64, RbumError>)
        requires
            old(self).wf(),
        ensures
            final(self).wf(),
            final(self).confs_v() == old(self).confs_v(),
            final(self).next_id == old(self).next_id,
            ({
                let target = old(self).spec_validate_target(ak@, conf_id, scope_paths@);
                match target {
                    None => r == Err::<u64, RbumError>(RbumError::NotFound) && final(self).certs_v()
                        == old(self).certs_v(),
                    Some(i) => {
                        let c = old(self).certs_v()[i];
                        let conf = old(self).spec_conf(c.conf_id);
                        if c.status != RbumCertStatusKind::Enabled || now > c.end_time
                            || spec_locked(
                            c.failures,
                            conf.sk_lock_err_times,
                            conf.sk_lock_cycle_sec,
                            conf.sk_lock_duration_sec,
                            now,
                        ) {
                            r == Err::<u64, RbumError>(RbumError::Unauthorized)
                                && final(self).certs_v() == old(self).certs_v()
                        } else if c.sk == sk@ {
                            r == Ok::<u64, RbumError>(c.rel_item_id)
                                && final(self).certs_v() =~= old(self).certs_v().update(
                                i,
                                (RbumCertV { failures: Seq::<u64>::empty(), ..c }),
                            )
                        } else {
                            r == Err::<u64, RbumError>(RbumError::Unauthorized)
                                && final(self).certs_v() =~= old(self).certs_v().update(
                                i,
                                (RbumCertV { failures: c.failures.push(now), ..c }),
                            )
                        }
                    },
                }
            }),
    {
        let i = match self.find_validate_target(ak, conf_id, scope_paths) {
            None => {
                return Err(RbumError::NotFound);
            },
            Some(i) => i,
        };
        proof {
            crate::table::lemma_first_where_props(
                self.certs_v(),
                |c: RbumCertV| spec_cert_match(c, ak@, conf_id, scope_paths@),
            );
        }
        let cert_conf_id = self.certs[i].conf_id;
        let j = match self.find_conf_idx(cert_conf_id) {
            Some(j) => j,
            None => {
                proof {
                    assert(self.spec_conf_live(cert_conf_id));
                    let w = choose|p: int|
                        0 <= p < self.confs_v().len() && (#[trigger] self.confs_v()[p]).id
                            == cert_conf_id && !self.confs_v()[p].deleted;
                    assert(self.spec_has_conf(cert_conf_id));
                }
                return Err(RbumError::NotFound);
            },
        };
        proof {
            self.lemma_conf_at(j as int);
        }
        let err_times = self.confs[j].sk_lock_err_times;
        let cycle = self.confs[j].sk_lock_cycle_sec;
        let duration = self.confs[j].sk_lock_duration_sec;
        if !matches!(self.certs[i].status, RbumCertStatusKind::Enabled) {
            return Err(RbumError::Unauthorized);
        }
        if now > self.certs[i].end_time {
            return Err(RbumError::Unauthorized);
        }
        if locked_at(&self.certs[i].failures, err_times, cycle, duration, now) {
            return Err(RbumError::Unauthorized);
        }
        let ghost pre = *self;
        if self.certs[i].sk == *sk {
            let mut updated = self.certs[i].duplicate();
            updated.failures = Vec::new();
            let out = updated.rel_item_id;
            proof {
                assert(updated@ =~= (RbumCertV {
                    failures: Seq::<u64>::empty(),
                    ..pre.certs_v()[i as int]
                }));
                lemma_map_update(self.certs@, |c: RbumCert| c@, i as int, updated);
                lemma_ids_update(
                    self.certs_v(),
                    |c: RbumCertV| c.id,
                    self.next_id,
                    i as int,
                    updated@,
                );
            }
            self.certs.set(i, updated);
            proof {
                Self::lemma_conf_live_transfer(pre, *self, i as int);
            }
            Ok(out)
        } else {
            let mut updated = self.certs[i].duplicate();
            updated.failures.push(now);
            proof {
                assert(updated@ =~= (RbumCertV {
                    failures: pre.certs_v()[i as int].failures.push(now),
                    ..pre.certs_v()[i as int]
                }));
                lemma_map_update(self.certs@, |c: RbumCert| c@, i as int, updated);
                lemma_ids_update(
                    self.certs_v(),
                    |c: RbumCertV| c.id,
                    self.next_id,
                    i as int,
                    updated@,
                );
            }
            self.certs.set(i, updated);
            proof {
                Self::lemma_conf_live_transfer(pre, *self, i as int);
            }
            Err(RbumError::Unauthorized)
        }
    }

    /// Is the credential live and inside the caller's sight?
    pub open spec fn spec_cert_visible(self, id: u64, ctx: RbumContextV) -> bool {
        &&& self.spec_has_cert(id)
        &&& !self.spec_cert(id).deleted
        &&& spec_visible(ctx.own_paths, self.spec_cert(id).own_paths, 0, false)
    }

    /// Shows the stored secret.  Refused with `BadRequest` where the
    /// configuration stores secrets one-way: such a secret is comparable
    /// through `validate` but never shown.
    pub fn show_sk(&self, id: u64, ctx: &RbumContext) -> (r: Result<String, RbumError>)
        requires
            self.wf(),
        ensures
            ({
                let conf = self.spec_conf(self.spec_cert(id).conf_id);
                match r {
                    Ok(s) => self.spec_cert_visible(id, ctx@) && !conf.sk_encrypted && s@
                        == self.spec_cert(id).sk,
                    Err(e) => {
                        &&& (e == RbumError::NotFound || e == RbumError::BadRequest)
                        &&& (e == RbumError::NotFound <==> !self.spec_cert_visible(id, ctx@))
                        &&& (e == RbumError::BadRequest <==> self.spec_cert_visible(id, ctx@)
                            && conf.sk_encrypted)
                    },
                }
            }),
    {
        let i = match self.find_cert_idx(id) {
            None => {
                return Err(RbumError::NotFound);
            },
            Some(i) => i,
        };
        proof {
            self.lemma_cert_at(i as int);
        }
        let c = &self.certs[i];
        if c.deleted {
            return Err(RbumError::NotFound);
        }
        if !visible(ctx, &c.own_paths, 0, false) {
            return Err(RbumError::NotFound);
        }
        let j = match self.find_conf_idx(c.conf_id) {
            Some(j) => j,
            None => {
                proof {
                    assert(self.spec_conf_live(self.certs_v()[i as int].conf_id));
                    let w = choose|p: int|
                        0 <= p < self.confs_v().len() && (#[trigger] self.confs_v()[p]).id
                            == self.certs_v()[i as int].conf_id && !self.confs_v()[p].deleted;
                    assert(self.spec_has_conf(self.certs_v()[i as int].conf_id));
                }
                return Err(RbumError::NotFound);
            },
        };
        proof {
            self.lemma_conf_at(j as int);
        }
        if self.confs[j].sk_encrypted {
            return Err(RbumError::BadRequest);
        }
        Ok(self.certs[i].sk.clone())
    }

    /// Replaces the secret without knowing the old one — the
    /// administrative rotation path — and extends the expiry from `now`.
    pub fn reset_sk(&mut self, id: u64, new_sk: &String, ctx: &RbumContext, now: u64) -> (r: Result<
        (),
        RbumError,
    >)
        requires
            old(self).wf(),
        ensures
            final(self).wf(),
            final(self).confs_v() == old(self).confs_v(),
            final(self).next_id == old(self).next_id,
            ({
                let c = old(self).spec_cert(id);
                let conf = old(self).spec_conf(c.conf_id);
                match r {
                    Ok(_) => {
                        &&& old(self).spec_cert_visible(id, ctx@)
                        &&& spec_scope_admin(ctx@.own_paths, c.own_paths)
                        &&& spec_rule_ok(conf.sk_rule, new_sk@)
                        &&& final(self).certs_v() =~= old(self).certs_v().update(
                            old(self).spec_cert_idx(id),
                            (RbumCertV {
                                sk: new_sk@,
                                end_time: spec_end_time(now, conf.expire_sec),
                                ..c
                            }),
                        )
                    },
                    Err(e) => {
                        &&& (e == RbumError::NotFound || e == RbumError::Forbidden || e == RbumError::BadRequest)
                        &&& *final(self) == *old(self)
                        &&& (e == RbumError::NotFound <==> !old(self).spec_cert_visible(id, ctx@))
                        &&& (e == RbumError::Forbidden <==> old(self).spec_cert_visible(id, ctx@)
                            && !spec_scope_admin(ctx@.own_paths, c.own_paths))
                        &&& (e == RbumError::BadRequest <==> old(self).spec_cert_visible(id, ctx@)
                            && spec_scope_admin(ctx@.own_paths, c.own_paths) && !spec_rule_ok(
                            conf.sk_rule,
                            new_sk@,
                        ))
                    },
                }
            }),
    {
        let i = match self.find_cert_idx(id) {
            None => {
                return Err(RbumError::NotFound);
            },
            Some(i) => i,
        };
        proof {
            self.lemma_cert_at(i as int);
        }
        if self.certs[i].deleted {
            return Err(RbumError::NotFound);
        }
        if !visible(ctx, &self.certs[i].own_paths, 0, false) {
            return Err(RbumError::NotFound);
        }
        if !is_scope_admin(ctx, &self.certs[i].own_paths) {
            return Err(RbumError::Forbidden);
        }
        let cert_conf_id = self.certs[i].conf_id;
        let j = match self.find_conf_idx(cert_conf_id) {
            Some(j) => j,
            None => {
                proof {
                    assert(self.spec_conf_live(cert_conf_id));
                    let w = choose|p: int|
                        0 <= p < self.confs_v().len() && (#[trigger] self.confs_v()[p]).id
                            == cert_conf_id && !self.confs_v()[p].deleted;
                    assert(self.spec_has_conf(cert_conf_id));
                }
                return Err(RbumError::NotFound);
            },
        };
        proof {
            self.lemma_conf_at(j as int);
        }
        let sk_rule = self.confs[j].sk_rule;
        let expire = self.confs[j].expire_sec;
        if !check_rule(&sk_rule, new_sk.as_str()) {
            return Err(RbumError::BadRequest);
        }
        let end_time: u64 = if expire > u64::MAX - now {
            u64::MAX
        } else {
            now + expire
        };
        let ghost pre = *self;
        let mut updated = self.certs[i].duplicate();
        updated.sk = new_sk.clone();
        updated.end_time = end_time;
        proof {
            assert(updated@ =~= (RbumCertV {
                sk: new_sk@,
                end_time: spec_end_time(now, expire),
                ..pre.certs_v()[i as int]
            }));
            lemma_map_update(self.certs@, |c: RbumCert| c@, i as int, updated);
            lemma_ids_update(
                self.certs_v(),
                |c: RbumCertV| c.id,
                self.next_id,
                i as int,
                updated@,
            );
        }
        self.certs.set(i, updated);
        proof {
            Self::lemma_conf_live_transfer(pre, *self, i as int);
        }
        Ok(())
    }

    /// Rotates the secret on the self-service path: the old secret must
    /// match, the new one must satisfy the rule and — unless the
    /// configuration allows repeats — differ from the old one.  Extends
    /// the expiry from `now`.
    pub fn change_sk(
        &mut self,
        id: u64,
        original_sk: &String,
        new_sk: &String,
        ctx: &RbumContext,
        now: u64,
    ) -> (r: Result<(), RbumError>)
        requires
            old(self).wf(),
        ensures
            final(self).wf(),
            final(self).confs_v() == old(self).confs_v(),
            final(self).next_id == old(self).next_id,
            ({
                let c = old(self).spec_cert(id);
                let conf = old(self).spec_conf(c.conf_id);
                let rule_ok = spec_rule_ok(conf.sk_rule, new_sk@) && (!conf.repeatable ==> new_sk@
                    != c.sk);
                match r {
                    Ok(_) => {
                        &&& old(self).spec_cert_visible(id, ctx@)
                        &&& c.sk == original_sk@
                        &&& rule_ok
                        &&& final(self).certs_v() =~= old(self).certs_v().update(
                            old(self).spec_cert_idx(id),
                            (RbumCertV {
                                sk: new_sk@,
                                end_time: spec_end_time(now, conf.expire_sec),
                                ..c
                            }),
                        )
                    },
                    Err(e) => {
                        &&& (e == RbumError::NotFound || e == RbumError::Unauthorized || e == RbumError::BadRequest)
                        &&& *final(self) == *old(self)
                        &&& (e == RbumError::NotFound <==> !old(self).spec_cert_visible(id, ctx@))
                        &&& (e == RbumError::Unauthorized <==> old(self).spec_cert_visible(id, ctx@)
                            && c.sk != original_sk@)
                        &&& (e == RbumError::BadRequest <==> old(self).spec_cert_visible(id, ctx@)
                            && c.sk == original_sk@ && !rule_ok)
                    },
                }
            }),
    {
        let i = match self.find_cert_idx(id) {
            None => {
                return Err(RbumError::NotFound);
            },
            Some(i) => i,
        };
        proof {
            self.lemma_cert_at(i as int);
        }
        if self.certs[i].deleted {
            return Err(RbumError::NotFound);
        }
        if !visible(ctx, &self.certs[i].own_paths, 0, false) {
            return Err(RbumError::NotFound);
        }
        if !(self.certs[i].sk == *original_sk) {
            return Err(RbumError::Unauthorized);
        }
        let cert_conf_id = self.certs[i].conf_id;
        let j = match self.find_conf_idx(cert_conf_id) {
            Some(j) => j,
            None => {
                proof {
                    assert(self.spec_conf_live(cert_conf_id));
                    let w = choose|p: int|
                        0 <= p < self.confs_v().len() && (#[trigger] self.confs_v()[p]).id
                            == cert_conf_id && !self.confs_v()[p].deleted;
                    assert(self.spec_has_conf(cert_conf_id));
                }
                return Err(RbumError::NotFound);
            },
        };
        proof {
            self.lemma_conf_at(j as int);
        }
        let sk_rule = self.confs[j].sk_rule;
        let repeatable = self.confs[j].repeatable;
        let expire = self.confs[j].expire_sec;
        if !check_rule(&sk_rule, new_sk.as_str()) {
            return Err(RbumError::BadRequest);
        }
        let same_as_old = *new_sk == self.certs[i].sk;
        if !repeatable && same_as_old {
            return Err(RbumError::BadRequest);
        }
        let end_time: u64 = if expire > u64::MAX - now {
            u64::MAX
        } else {
            now + expire
        };
        let ghost pre = *self;
        let mut updated = self.certs[i].duplicate();
        updated.sk = new_sk.clone();
        updated.end_time = end_time;
        proof {
            assert(updated@ =~= (RbumCertV {
                sk: new_sk@,
                end_time: spec_end_time(now, expire),
                ..pre.certs_v()[i as int]
            }));
            lemma_map_update(self.certs@, |c: RbumCert| c@, i as int, updated);
            lemma_ids_update(
                self.certs_v(),
                |c: RbumCertV| c.id,
                self.next_id,
                i as int,
                updated@,
            );
        }
        self.certs.set(i, updated);
        proof {
            Self::lemma_conf_live_transfer(pre, *self, i as int);
        }
        Ok(())
    }

    /// Soft-deletes one credential; same sight and scope rules as any
    /// write.
    pub fn delete_cert(&mut self, id: u64, ctx: &RbumContext) -> (r: Result<u64, RbumError>)
        requires
            old(self).wf(),
        ensures
            final(self).wf(),
            final(self).confs_v() == old(self).confs_v(),
            final(self).next_id == old(self).next_id,
            match r {
                Ok(n) => {
                    &&& n == 1
                    &&& old(self).spec_cert_visible(id, ctx@)
                    &&& spec_scope_admin(ctx@.own_paths, old(self).spec_cert(id).own_paths)
                    &&& final(self).certs_v() =~= old(self).certs_v().update(
                        old(self).spec_cert_idx(id),
                        (RbumCertV { deleted: true, ..old(self).spec_cert(id) }),
                    )
                },
                Err(e) => {
                    &&& (e == RbumError::NotFound || e == RbumError::Forbidden)
                    &&& *final(self) == *old(self)
                    &&& (e == RbumError::NotFound <==> !old(self).spec_cert_visible(id, ctx@))
                    &&& (e == RbumError::Forbidden <==> old(self).spec_cert_visible(id, ctx@)
                        && !spec_scope_admin(ctx@.own_paths, old(self).spec_cert(id).own_paths))
                },
            },
    {
        let i = match self.find_cert_idx(id) {
            None => {
                return Err(RbumError::NotFound);
            },
            Some(i) => i,
        };
        proof {
            self.lemma_cert_at(i as int);
        }
        if self.certs[i].deleted {
            return Err(RbumError::NotFound);
        }
        if !visible(ctx, &self.certs[i].own_paths, 0, false) {
            return Err(RbumError::NotFound);
        }
        if !is_scope_admin(ctx, &self.certs[i].own_paths) {
            return Err(RbumError::Forbidden);
        }
        let ghost pre = *self;
        let mut updated = self.certs[i].duplicate();
        updated.deleted = true;
        proof {
            assert(updated@ =~= (RbumCertV { deleted: true, ..pre.certs_v()[i as int] }));
            lemma_map_update(self.certs@, |c: RbumCert| c@, i as int, updated);
            lemma_ids_update(
                self.certs_v(),
                |c: RbumCertV| c.id,
                self.next_id,
                i as int,
                updated@,
            );
        }
        self.certs.set(i, updated);
        proof {
            assert forall|k: int|
                0 <= k < self.certs_v().len() && !(#[trigger] self.certs_v()[k]).deleted implies self.spec_conf_live(
                self.certs_v()[k].conf_id,
            ) by {
                assert(k != i);
                assert(pre.spec_conf_live(pre.certs_v()[k].conf_id));
                let w = choose|p: int|
                    0 <= p < pre.confs_v().len() && (#[trigger] pre.confs_v()[p]).id
                        == pre.certs_v()[k].conf_id && !pre.confs_v()[p].deleted;
                assert(self.confs_v()[w].id == self.certs_v()[k].conf_id && !self.confs_v()[
                    w
                ].deleted);
            }
        }
        Ok(1)
    }

    /// The cascade a deleted item triggers on `s`: every live credential
    /// of the item becomes deleted; everything else stays.
    pub open spec fn spec_cascade(s: Seq<RbumCertV>, item_id: u64) -> Seq<RbumCertV> {
        s.map_values(
            |c: RbumCertV|
                if !c.deleted && c.rel_item_id == item_id {
                    RbumCertV { deleted: true, ..c }
                } else {
                    c
                },
        )
    }

    /// Soft-deletes every live credential of an item — the cascade run
    /// by item deletion, whose own scope checks have already passed.
    /// Returns the number of credentials deleted.
    pub fn delete_certs_of_item(&mut self, item_id: u64) -> (r: u64)
        requires
            old(self).wf(),
        ensures
            final(self).wf(),
            final(self).confs_v() == old(self).confs_v(),
            final(self).next_id == old(self).next_id,
            final(self).certs_v() =~= Self::spec_cascade(old(self).certs_v(), item_id),
            r == old(self).certs_v().filter(
                |c: RbumCertV| !c.deleted && c.rel_item_id == item_id,
            ).len(),
    {
        let ghost orig = *self;
        let ghost pred = |c: RbumCertV| !c.deleted && c.rel_item_id == item_id;
        let ghost tf = |c: RbumCertV|
            if !c.deleted && c.rel_item_id == item_id {
                RbumCertV { deleted: true, ..c }
            } else {
                c
            };
        let n = self.certs.len();
        let mut count: usize = 0;
        let mut i: usize = 0;
        while i < n
            invariant
                n == self.certs@.len(),
                i <= n,
                count <= i,
                self.confs == orig.confs,
                self.next_id == orig.next_id,
                self.certs_v().len() == orig.certs_v().len(),
                forall|k: int| 0 <= k < i ==> self.certs_v()[k] == tf(#[trigger] orig.certs_v()[k]),
                forall|k: int|
                    i <= k < n ==> #[trigger] self.certs_v()[k] == orig.certs_v()[k],
                count == orig.certs_v().subrange(0, i as int).filter(pred).len(),
                spec_ids_unique(self.certs_v(), |c: RbumCertV| c.id),
                spec_ids_below(self.certs_v(), |c: RbumCertV| c.id, self.next_id),
                pred == (|c: RbumCertV| !c.deleted && c.rel_item_id == item_id),
                tf == (|c: RbumCertV|
                    if !c.deleted && c.rel_item_id == item_id {
                        RbumCertV { deleted: true, ..c }
                    } else {
                        c
                    }),
            decreases n - i,
        {
            let hit = !self.certs[i].deleted && self.certs[i].rel_item_id == item_id;
            proof {
                assert(self.certs_v()[i as int] == orig.certs_v()[i as int]);
                assert(hit == pred(orig.certs_v()[i as int]));
                crate::paging::lemma_filter_take_push(orig.certs_v(), pred, i as int);
            }
            if hit {
                let mut updated = self.certs[i].duplicate();
                updated.deleted = true;
                proof {
                    assert(updated@ =~= tf(orig.certs_v()[i as int]));
                    lemma_map_update(self.certs@, |c: RbumCert| c@, i as int, updated);
                    lemma_ids_update(
                        self.certs_v(),
                        |c: RbumCertV| c.id,
                        self.next_id,
                        i as int,
                        updated@,
                    );
                }
                self.certs.set(i, updated);
                count += 1;
            }
            i += 1;
        }
        proof {
            assert(orig.certs_v().subrange(0, n as int) =~= orig.certs_v());
            assert(self.certs_v() =~= Self::spec_cascade(orig.certs_v(), item_id));
            assert forall|k: int|
                0 <= k < self.certs_v().len() && !(#[trigger] self.certs_v()[k]).deleted implies self.spec_conf_live(
                self.certs_v()[k].conf_id,
            ) by {
                assert(self.certs_v()[k] == tf(orig.certs_v()[k]));
                assert(!orig.certs_v()[k].deleted);
                assert(self.certs_v()[k].conf_id == orig.certs_v()[k].conf_id);
                assert(orig.spec_conf_live(orig.certs_v()[k].conf_id));
                let w = choose|p: int|
                    0 <= p < orig.confs_v().len() && (#[trigger] orig.confs_v()[p]).id
                        == orig.certs_v()[k].conf_id && !orig.confs_v()[p].deleted;
                assert(self.confs_v()[w].id == self.certs_v()[k].conf_id && !self.confs_v()[
                    w
                ].deleted);
            }
        }
        count as u64
    }

    /// The identifier-and-tag listing of the live configurations of one
    /// domain inside the caller's sight.
    pub open spec fn spec_conf_ids_and_ext(
        self,
        ctx: RbumContextV,
        domain_id: u64,
    ) -> Seq<RbumCertConfIdAndExtRespV> {
        self.confs_v().filter(
            |c: RbumCertConfV|
                !c.deleted && c.rel_domain_id == domain_id && spec_visible(
                    ctx.own_paths,
                    c.own_paths,
                    0,
                    false,
                ),
        ).map_values(|c: RbumCertConfV| RbumCertConfIdAndExtRespV { id: c.id, ext: c.ext })
    }

    /// Lists the id and classification tag of every live configuration of
    /// a domain the caller can see.
    pub fn find_cert_conf_ids_and_ext(&self, domain_id: u64, ctx: &RbumContext) -> (r: Vec<
        RbumCertConfIdAndExtResp,
    >)
        requires
            self.wf(),
        ensures
            r@.map_values(|x: RbumCertConfIdAndExtResp| x@) == self.spec_conf_ids_and_ext(
                ctx@,
                domain_id,
            ),
    {
        let ghost pred = |c: RbumCertConfV|
            !c.deleted && c.rel_domain_id == domain_id && spec_visible(
                ctx@.own_paths,
                c.own_paths,
                0,
                false,
            );
        let ghost tf = |c: RbumCertConfV| RbumCertConfIdAndExtRespV { id: c.id, ext: c.ext };
        let mut acc: Vec<RbumCertConfIdAndExtResp> = Vec::new();
        let n = self.confs.len();
        let mut i: usize = 0;
        while i < n
            invariant
                n == self.confs@.len(),
                i <= n,
                acc@.map_values(|x: RbumCertConfIdAndExtResp| x@) =~= self.confs_v().subrange(
                    0,
                    i as int,
                ).filter(pred).map_values(tf),
                pred == (|c: RbumCertConfV|
                    !c.deleted && c.rel_domain_id == domain_id && spec_visible(
                        ctx@.own_paths,
                        c.own_paths,
                        0,
                        false,
                    )),
                tf == (|c: RbumCertConfV| RbumCertConfIdAndExtRespV { id: c.id, ext: c.ext }),
            decreases n - i,
        {
            let c = &self.confs[i];
            let keep = !c.deleted && c.rel_domain_id == domain_id && visible(
                ctx,
                &c.own_paths,
                0,
                false,
            );
            proof {
                assert(keep == pred(self.confs_v()[i as int]));
                crate::paging::lemma_filter_take_push(self.confs_v(), pred, i as int);
                if keep {
                    lemma_map_push(
                        self.confs_v().subrange(0, i as int).filter(pred),
                        tf,
                        self.confs_v()[i as int],
                    );
                }
            }
            if keep {
                let row = RbumCertConfIdAndExtResp { id: c.id, ext: c.ext.clone() };
                proof {
                    lemma_map_push(acc@, |x: RbumCertConfIdAndExtResp| x@, row);
                    assert(row@ =~= tf(self.confs_v()[i as int]));
                }
                acc.push(row);
            }
            i += 1;
        }
        proof {
            assert(self.confs_v().subrange(0, n as int) =~= self.confs_v());
        }
        acc
    }

    /// Replacing one credential record without touching its identity,
    /// liveness or configuration keeps every live credential's
    /// configuration live.
    proof fn lemma_conf_live_transfer(pre: CredentialLedger, post: CredentialLedger, i: int)
        requires
            0 <= i < pre.certs_v().len(),
            post.confs_v() == pre.confs_v(),
            post.certs_v().len() == pre.certs_v().len(),
            forall|k: int| 0 <= k < pre.certs_v().len() && k != i ==> post.certs_v()[k] == pre.certs_v()[k],
            post.certs_v()[i].conf_id == pre.certs_v()[i].conf_id,
            post.certs_v()[i].deleted == pre.certs_v()[i].deleted,
            forall|k: int|
                0 <= k < pre.certs_v().len() && !(#[trigger] pre.certs_v()[k]).deleted
                    ==> pre.spec_conf_live(pre.certs_v()[k].conf_id),
        ensures
            forall|k: int|
                0 <= k < post.certs_v().len() && !(#[trigger] post.certs_v()[k]).deleted
                    ==> post.spec_conf_live(post.certs_v()[k].conf_id),
    {
        assert forall|k: int|
            0 <= k < post.certs_v().len() && !(#[trigger] post.certs_v()[k]).deleted implies post.spec_conf_live(
            post.certs_v()[k].conf_id,
        ) by {
            assert(post.certs_v()[k].conf_id == pre.certs_v()[k].conf_id);
            assert(!pre.certs_v()[k].deleted);
            assert(pre.spec_conf_live(pre.certs_v()[k].conf_id));
            let w = choose|p: int|
                0 <= p < pre.confs_v().len() && (#[trigger] pre.confs_v()[p]).id == pre.certs_v()[
                    k
                ].conf_id && !pre.confs_v()[p].deleted;
            assert(post.confs_v()[w].id == post.certs_v()[k].conf_id && !post.confs_v()[w].deleted);
        }
    }
}

/// Identifier and classification tag of a configuration, as listings
/// return them.
#[derive(Debug)]
pub struct RbumCertConfIdAndExtResp {
    pub id: u64,
    pub ext: String,
}

/// Mathematical image of a listing row.
#[verifier::ext_equal]
pub struct RbumCertConfIdAndExtRespV {
    pub id: u64,
    pub ext: Seq<char>,
}

impl View for RbumCertConfIdAndExtResp {
    type V = RbumCertConfIdAndExtRespV;

    open spec fn view(&self) -> RbumCertConfIdAndExtRespV {
        RbumCertConfIdAndExtRespV { id: self.id, ext: self.ext@ }
    }
}

/// Issuance request for a configuration.
pub struct RbumCertConfAddReq {
    pub code: String,
    pub name: String,
    pub ext: String,
    pub ak_rule: FieldRule,
    pub sk_rule: FieldRule,
    pub sk_need: bool,
    pub sk_encrypted: bool,
    pub sk_dynamic: bool,
    pub repeatable: bool,
    pub is_ak_repeatable: bool,
    pub is_basic: bool,
    /// Seconds to expiry; absent means the never-expires sentinel.
    pub expire_sec: Option<u64>,
    pub sk_lock_cycle_sec: u64,
    pub sk_lock_err_times: u8,
    pub sk_lock_duration_sec: u64,
    pub coexist_num: u32,
    pub rel_domain_id: u64,
    pub rel_item_id: Option<u64>,
}

} // verus!

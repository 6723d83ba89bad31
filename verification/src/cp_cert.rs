//! Passport-console mail verification-code credentials: the mail address
//! is the access key, the per-login code the secret.  Producing and
//! delivering the code is outside work; the ledger stores and checks it.

use vstd::prelude::*;

use crate::cert::spec_cert_fields_ok;
use crate::cert::CredentialLedger;
use crate::cert::RbumCertAddReq;
use crate::cert::RbumCertAddReqV;
use crate::cert::RbumCertStatusKind;
use crate::cert::RbumCertV;
use crate::cert::spec_end_time;
use crate::cert::spec_locked;
use crate::result::RbumError;
use crate::scope::RbumContext;

verus! {

/// The passport-console mail verification-code service.
pub struct IamCpCertMailVCodeServ;

impl IamCpCertMailVCodeServ {
    /// Binds a mail verification-code credential to an account: the mail
    /// address becomes the access key, the code the stored secret.
    pub fn add_cert_mail_vocde(
        ledger: &mut CredentialLedger,
        mail: String,
        vcode: String,
        conf_id: u64,
        rel_item_id: u64,
        ctx: &RbumContext,
        now: u64,
    ) -> (r: Result<u64, RbumError>)
        requires
            old(ledger).wf(),
            old(ledger).next_id < u64::MAX,
        ensures
            final(ledger).wf(),
            final(ledger).confs_v() == old(ledger).confs_v(),
            ({
                let conf_live = old(ledger).spec_conf_live(conf_id);
                let conf = old(ledger).spec_conf(conf_id);
                let req = (RbumCertAddReqV {
                    ak: mail@,
                    sk: Some(vcode@),
                    ext: Seq::<char>::empty(),
                    status: RbumCertStatusKind::Enabled,
                    conf_id: conf_id,
                    rel_item_id: rel_item_id,
                });
                match r {
                    Ok(id) => {
                        &&& conf_live
                        &&& spec_cert_fields_ok(conf, req)
                        &&& id == old(ledger).next_id
                        &&& final(ledger).certs_v() =~= old(ledger).certs_v().push(
                            (RbumCertV {
                                id: id,
                                ak: mail@,
                                sk: vcode@,
                                ext: Seq::<char>::empty(),
                                status: RbumCertStatusKind::Enabled,
                                start_time: now,
                                end_time: spec_end_time(now, conf.expire_sec),
                                conf_id: conf_id,
                                rel_item_id: rel_item_id,
                                own_paths: ctx@.own_paths,
                                failures: Seq::<u64>::empty(),
                                deleted: false,
                            }),
                        )
                    },
                    Err(e) => {
                        &&& *final(ledger) == *old(ledger)
                        &&& (e == RbumError::NotFound || e == RbumError::BadRequest || e
                            == RbumError::Conflict)
                        &&& (e == RbumError::NotFound <==> !conf_live)
                        &&& (e == RbumError::BadRequest <==> conf_live && !spec_cert_fields_ok(
                            conf,
                            req,
                        ))
                        &&& (e == RbumError::Conflict <==> conf_live && spec_cert_fields_ok(
                            conf,
                            req,
                        ) && ((!conf.is_ak_repeatable && old(ledger).spec_ak_taken(mail@, conf_id))
                            || old(ledger).spec_live_certs_of(conf_id, rel_item_id).len()
                            >= conf.coexist_num))
                    },
                }
            }),
    {
        let req = RbumCertAddReq {
            ak: mail,
            sk: Some(vcode),
            ext: String::new(),
            status: RbumCertStatusKind::Enabled,
            conf_id,
            rel_item_id,
        };
        ledger.add_cert(req, ctx, now)
    }

    /// Logs an account in by mail and verification code: validates the
    /// pair against the ledger from the given scope and returns the
    /// owning account's id.
    pub fn login_by_mail_vocde(
        ledger: &mut CredentialLedger,
        mail: &String,
        vcode: &String,
        conf_id: u64,
        scope_paths: &Vec<u64>,
        now: u64,
    ) -> (r: Result<u64, RbumError>)
        requires
            old(ledger).wf(),
        ensures
            final(ledger).wf(),
            final(ledger).confs_v() == old(ledger).confs_v(),
            ({
                let target = old(ledger).spec_validate_target(mail@, conf_id, scope_paths@);
                match target {
                    None => r == Err::<u64, RbumError>(RbumError::NotFound) && final(ledger).certs_v()
                        == old(ledger).certs_v(),
                    Some(i) => {
                        let c = old(ledger).certs_v()[i];
                        let conf = old(ledger).spec_conf(c.conf_id);
                        if c.status != RbumCertStatusKind::Enabled || now > c.end_time
                            || spec_locked(
                            c.failures,
                            conf.sk_lock_err_times,
                            conf.sk_lock_cycle_sec,
                            conf.sk_lock_duration_sec,
                            now,
                        ) {
                            r == Err::<u64, RbumError>(RbumError::Unauthorized)
                                && final(ledger).certs_v() == old(ledger).certs_v()
                        } else if c.sk == vcode@ {
                            r == Ok::<u64, RbumError>(c.rel_item_id)
                                && final(ledger).certs_v() =~= old(ledger).certs_v().update(
                                i,
                                (RbumCertV { failures: Seq::<u64>::empty(), ..c }),
                            )
                        } else {
                            r == Err::<u64, RbumError>(RbumError::Unauthorized)
                                && final(ledger).certs_v() =~= old(ledger).certs_v().update(
                                i,
                                (RbumCertV { failures: c.failures.push(now), ..c }),
                            )
                        }
                    },
                }
            }),
    {
        ledger.validate(mail, vcode, conf_id, scope_paths, now)
    }
}

} // verus!

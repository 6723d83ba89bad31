//! Directed, tagged relations between resource items.
//!
//! An edge `(tag, from, to)` wires two items together — role grants,
//! group membership, resource bindings.  The triple of a live edge is
//! unique; an edge may carry key/value attributes describing either
//! endpoint and an optional date-time window outside which it is not
//! active.  Deletion resolves the edge by its triple first and is a no-op
//! when the triple is absent.

use vstd::pervasive::VecAdditionalExecFns;
use vstd::prelude::*;

use crate::item::clone_path;
use crate::item::ItemStore;
use crate::paging::lemma_filter_take_push;
use crate::paging::lemma_map_push;
use crate::paging::lemma_map_reverse;
use crate::paging::lemma_map_update;
use crate::paging::page_window;
use crate::paging::reverse_vec;
use crate::paging::spec_page_window;
use crate::paging::Page;
use crate::result::RbumError;
use crate::scope::is_scope_admin;
use crate::scope::spec_scope_admin;
use crate::scope::spec_visible;
use crate::scope::visible;
use crate::scope::RbumContext;
use crate::scope::RbumContextV;
use crate::table::lemma_ids_push;
use crate::table::lemma_ids_update;
use crate::table::spec_ids_below;
use crate::table::spec_ids_unique;

verus! {

/// Semantic type of a graph edge.
#[derive(Clone, Copy, Debug, PartialEq, Eq, Structural)]
pub enum IamRelKind {
    /// An account holds a role.
    IamAccountRole,
    /// An account belongs to a group node.
    IamAccountGroup,
    /// A role is granted to an account.
    IamRoleAccount,
    /// A role exposes an HTTP resource.
    IamRoleHttpRes,
    /// A resource is reachable through a role.
    IamResRole,
    /// A role belongs to a tenant.
    IamRoleTenant,
}

/// Key/value extension of an edge; `is_from` says which endpoint it
/// describes.
#[derive(Debug)]
pub struct RbumRelAttr {
    pub is_from: bool,
    pub name: String,
    pub value: String,
}

/// Mathematical image of an edge attribute.
#[verifier::ext_equal]
pub struct RbumRelAttrV {
    pub is_from: bool,
    pub name: Seq<char>,
    pub value: Seq<char>,
}

impl View for RbumRelAttr {
    type V = RbumRelAttrV;

    open spec fn view(&self) -> RbumRelAttrV {
        RbumRelAttrV { is_from: self.is_from, name: self.name@, value: self.value@ }
    }
}

/// Date-time validity window of an edge, in seconds.  A missing bound
/// was stored as its unbounded sentinel.
#[derive(Clone, Copy, Debug, PartialEq, Eq, Structural)]
pub struct RelEnv {
    pub start: u64,
    pub end: u64,
}

impl RelEnv {
    /// An edge window is active while `now` lies inside it.
    pub open spec fn spec_active(self, now: u64) -> bool {
        self.start <= now <= self.end
    }
}

/// A directed tagged edge with its extensions.
#[derive(Debug)]
pub struct RbumRel {
    pub id: u64,
    pub tag: IamRelKind,
    pub from_item_id: u64,
    pub to_item_id: u64,
    pub own_paths: Vec<u64>,
    pub attrs: Vec<RbumRelAttr>,
    pub env: Option<RelEnv>,
    pub deleted: bool,
    pub update_time: u64,
}

/// Mathematical image of an edge.
#[verifier::ext_equal]
pub struct RbumRelV {
    pub id: u64,
    pub tag: IamRelKind,
    pub from_item_id: u64,
    pub to_item_id: u64,
    pub own_paths: Seq<u64>,
    pub attrs: Seq<RbumRelAttrV>,
    pub env: Option<RelEnv>,
    pub deleted: bool,
    pub update_time: u64,
}

impl View for RbumRel {
    type V = RbumRelV;

    open spec fn view(&self) -> RbumRelV {
        RbumRelV {
            id: self.id,
            tag: self.tag,
            from_item_id: self.from_item_id,
            to_item_id: self.to_item_id,
            own_paths: self.own_paths@,
            attrs: self.attrs@.map_values(|a: RbumRelAttr| a@),
            env: self.env,
            deleted: self.deleted,
            update_time: self.update_time,
        }
    }
}

impl RbumRelV {
    /// Is this edge active at `now`?  Absence of a window means always
    /// active.
    pub open spec fn spec_active(self, now: u64) -> bool {
        match self.env {
            Some(env) => env.spec_active(now),
            None => true,
        }
    }
}

fn clone_attrs(attrs: &Vec<RbumRelAttr>) -> (r: Vec<RbumRelAttr>)
    ensures
        r@.map_values(|a: RbumRelAttr| a@) =~= attrs@.map_values(|a: RbumRelAttr| a@),
{
    let mut out: Vec<RbumRelAttr> = Vec::new();
    let n = attrs.len();
    let mut i: usize = 0;
    while i < n
        invariant
            n == attrs@.len(),
            i <= n,
            out@.map_values(|a: RbumRelAttr| a@) =~= attrs@.subrange(0, i as int).map_values(
                |a: RbumRelAttr| a@,
            ),
        decreases n - i,
    {
        let a = &attrs[i];
        let dup = RbumRelAttr { is_from: a.is_from, name: a.name.clone(), value: a.value.clone() };
        proof {
            assert(dup@ =~= attrs@[i as int]@);
            lemma_map_push(out@, |a: RbumRelAttr| a@, dup);
            assert(attrs@.subrange(0, i as int).push(attrs@[i as int]) =~= attrs@.subrange(
                0,
                i + 1,
            ));
            lemma_map_push(attrs@.subrange(0, i as int), |a: RbumRelAttr| a@, attrs@[i as int]);
        }
        out.push(dup);
        i += 1;
    }
    proof {
        assert(attrs@.subrange(0, n as int) =~= attrs@);
    }
    out
}

impl RbumRel {
    /// Is this edge active at `now`: no window, or `now` inside it?
    pub fn is_active(&self, now: u64) -> (r: bool)
        ensures
            r == self@.spec_active(now),
    {
        match &self.env {
            None => true,
            Some(env) => env.start <= now && now <= env.end,
        }
    }

    pub fn duplicate(&self) -> (r: RbumRel)
        ensures
            r@ == self@,
    {
        let r = RbumRel {
            id: self.id,
            tag: self.tag,
            from_item_id: self.from_item_id,
            to_item_id: self.to_item_id,
            own_paths: clone_path(&self.own_paths),
            attrs: clone_attrs(&self.attrs),
            env: self.env,
            deleted: self.deleted,
            update_time: self.update_time,
        };
        proof {
            assert(r@ =~= self@);
        }
        r
    }
}

/// Does the live edge `r` carry exactly this triple?
pub open spec fn spec_edge_match(
    r: RbumRelV,
    tag: IamRelKind,
    from_item_id: u64,
    to_item_id: u64,
) -> bool {
    &&& !r.deleted
    &&& r.tag == tag
    &&& r.from_item_id == from_item_id
    &&& r.to_item_id == to_item_id
}

/// At most one live edge carries any triple.
pub open spec fn spec_edges_unique(s: Seq<RbumRelV>) -> bool {
    forall|i: int, j: int|
        0 <= i < j < s.len() && !s[i].deleted && !s[j].deleted && s[i].tag == s[j].tag
            && s[i].from_item_id == s[j].from_item_id && s[i].to_item_id == s[j].to_item_id
            ==> false
}

/// The relation graph service: the edge table and its id counter.
pub struct IamRelServ {
    pub rels: Vec<RbumRel>,
    pub next_id: u64,
}

impl IamRelServ {
    /// The edge table as a sequence of record images.
    pub open spec fn rels_v(self) -> Seq<RbumRelV> {
        self.rels@.map_values(|r: RbumRel| r@)
    }

    /// Unique ids below the counter, and unique live triples.
    pub open spec fn wf(self) -> bool {
        &&& spec_ids_unique(self.rels_v(), |r: RbumRelV| r.id)
        &&& spec_ids_below(self.rels_v(), |r: RbumRelV| r.id, self.next_id)
        &&& spec_edges_unique(self.rels_v())
    }

    pub fn new() -> (r: IamRelServ)
        ensures
            r.wf(),
            r.rels_v().len() == 0,
            r.next_id == 1,
    {
        IamRelServ { rels: Vec::new(), next_id: 1 }
    }

    /// Is there a live edge with this triple?
    pub open spec fn spec_has_edge(
        self,
        tag: IamRelKind,
        from_item_id: u64,
        to_item_id: u64,
    ) -> bool {
        exists|i: int|
            0 <= i < self.rels_v().len() && spec_edge_match(
                #[trigger] self.rels_v()[i],
                tag,
                from_item_id,
                to_item_id,
            )
    }

    pub open spec fn spec_edge_idx(
        self,
        tag: IamRelKind,
        from_item_id: u64,
        to_item_id: u64,
    ) -> int {
        choose|i: int|
            0 <= i < self.rels_v().len() && spec_edge_match(
                #[trigger] self.rels_v()[i],
                tag,
                from_item_id,
                to_item_id,
            )
    }

    /// The unique live edge carrying the triple.
    pub open spec fn spec_edge(
        self,
        tag: IamRelKind,
        from_item_id: u64,
        to_item_id: u64,
    ) -> RbumRelV {
        self.rels_v()[self.spec_edge_idx(tag, from_item_id, to_item_id)]
    }

    /// What resolving a triple returns: the live edge's id, or nothing.
    pub open spec fn spec_find_rel_id(
        self,
        tag: IamRelKind,
        from_item_id: u64,
        to_item_id: u64,
    ) -> Option<u64> {
        if self.spec_has_edge(tag, from_item_id, to_item_id) {
            Some(self.spec_edge(tag, from_item_id, to_item_id).id)
        } else {
            None
        }
    }

    /// Two live edges with one triple coincide.
    pub proof fn lemma_edge_at(self, i: int, tag: IamRelKind, from_item_id: u64, to_item_id: u64)
        requires
            self.wf(),
            0 <= i < self.rels_v().len(),
            spec_edge_match(self.rels_v()[i], tag, from_item_id, to_item_id),
        ensures
            self.spec_has_edge(tag, from_item_id, to_item_id),
            self.spec_edge_idx(tag, from_item_id, to_item_id) == i,
            self.spec_edge(tag, from_item_id, to_item_id) == self.rels_v()[i],
    {
        assert(self.spec_has_edge(tag, from_item_id, to_item_id));
        let j = self.spec_edge_idx(tag, from_item_id, to_item_id);
        if i < j {
            assert(!(spec_edge_match(self.rels_v()[i], tag, from_item_id, to_item_id)
                && spec_edge_match(self.rels_v()[j], tag, from_item_id, to_item_id)));
        } else if j < i {
            assert(!(spec_edge_match(self.rels_v()[j], tag, from_item_id, to_item_id)
                && spec_edge_match(self.rels_v()[i], tag, from_item_id, to_item_id)));
        }
    }

    fn find_edge_idx(&self, tag: IamRelKind, from_item_id: u64, to_item_id: u64) -> (r: Option<
        usize,
    >)
        ensures
            match r {
                Some(i) => i < self.rels_v().len() && spec_edge_match(
                    self.rels_v()[i as int],
                    tag,
                    from_item_id,
                    to_item_id,
                ),
                None => !self.spec_has_edge(tag, from_item_id, to_item_id),
            },
    {
        let n = self.rels.len();
        let mut i: usize = 0;
        while i < n
            invariant
                n == self.rels@.len(),
                i <= n,
                forall|k: int|
                    0 <= k < i ==> !spec_edge_match(
                        #[trigger] self.rels_v()[k],
                        tag,
                        from_item_id,
                        to_item_id,
                    ),
            decreases n - i,
        {
            let r = &self.rels[i];
            if !r.deleted && r.tag == tag && r.from_item_id == from_item_id && r.to_item_id
                == to_item_id {
                return Some(i);
            }
            i += 1;
        }
        None
    }

    /// Resolves the id of the live edge carrying the triple; `None` when
    /// the triple is absent.
    pub fn find_rel_id(&self, tag: IamRelKind, from_item_id: u64, to_item_id: u64) -> (r: Option<
        u64,
    >)
        requires
            self.wf(),
        ensures
            r == self.spec_find_rel_id(tag, from_item_id, to_item_id),
    {
        match self.find_edge_idx(tag, from_item_id, to_item_id) {
            Some(i) => {
                proof {
                    self.lemma_edge_at(i as int, tag, from_item_id, to_item_id);
                }
                Some(self.rels[i].id)
            },
            None => None,
        }
    }

    /// Creates the edge `(tag, from, to)` under the caller's scope,
    /// together with its attributes and optional validity window.  Fails
    /// with `NotFound` when either endpoint item does not resolve under
    /// the caller's sight, and with `Conflict` when the triple already
    /// exists.
    pub fn add_rel(
        &mut self,
        items: &ItemStore,
        tag: IamRelKind,
        from_item_id: u64,
        to_item_id: u64,
        attrs: Vec<RbumRelAttr>,
        start_timestamp: Option<u64>,
        end_timestamp: Option<u64>,
        ctx: &RbumContext,
        now: u64,
    ) -> (r: Result<u64, RbumError>)
        requires
            old(self).wf(),
            items.wf(),
            old(self).next_id < u64::MAX,
        ensures
            final(self).wf(),
            match r {
                Ok(id) => {
                    &&& items.spec_item_visible(from_item_id, ctx@, false)
                    &&& items.spec_item_visible(to_item_id, ctx@, false)
                    &&& !old(self).spec_has_edge(tag, from_item_id, to_item_id)
                    &&& id == old(self).next_id
                    &&& final(self).next_id == old(self).next_id + 1
                    &&& final(self).rels_v() =~= old(self).rels_v().push(
                        (RbumRelV {
                            id: id,
                            tag: tag,
                            from_item_id: from_item_id,
                            to_item_id: to_item_id,
                            own_paths: ctx@.own_paths,
                            attrs: attrs@.map_values(|a: RbumRelAttr| a@),
                            env: spec_window(start_timestamp, end_timestamp),
                            deleted: false,
                            update_time: now,
                        }),
                    )
                },
                Err(e) => {
                    &&& *final(self) == *old(self)
                    &&& (e == RbumError::NotFound || e == RbumError::Conflict)
                    &&& (e == RbumError::NotFound <==> !(items.spec_item_visible(
                        from_item_id,
                        ctx@,
                        false,
                    ) && items.spec_item_visible(to_item_id, ctx@, false)))
                    &&& (e == RbumError::Conflict <==> items.spec_item_visible(
                        from_item_id,
                        ctx@,
                        false,
                    ) && items.spec_item_visible(to_item_id, ctx@, false) && old(
                        self,
                    ).spec_has_edge(tag, from_item_id, to_item_id))
                },
            },
    {
        if items.get_item(from_item_id, ctx, false).is_err() {
            return Err(RbumError::NotFound);
        }
        if items.get_item(to_item_id, ctx, false).is_err() {
            return Err(RbumError::NotFound);
        }
        if self.find_edge_idx(tag, from_item_id, to_item_id).is_some() {
            return Err(RbumError::Conflict);
        }
        let env = match (start_timestamp, end_timestamp) {
            (None, None) => None,
            (s, e) => Some(
                RelEnv {
                    start: match s {
                        Some(v) => v,
                        None => 0,
                    },
                    end: match e {
                        Some(v) => v,
                        None => u64::MAX,
                    },
                },
            ),
        };
        let id = self.next_id;
        self.next_id = self.next_id + 1;
        let rec = RbumRel {
            id,
            tag,
            from_item_id,
            to_item_id,
            own_paths: clone_path(&ctx.own_paths),
            attrs,
            env,
            deleted: false,
            update_time: now,
        };
        proof {
            lemma_map_push(self.rels@, |r: RbumRel| r@, rec);
            lemma_ids_push(self.rels_v(), |r: RbumRelV| r.id, id, rec@, self.next_id);
            let t = self.rels_v().push(rec@);
            assert forall|i: int, j: int|
                0 <= i < j < t.len() && !t[i].deleted && !t[j].deleted && t[i].tag == t[j].tag
                    && t[i].from_item_id == t[j].from_item_id && t[i].to_item_id
                    == t[j].to_item_id implies false by {
                if j < self.rels_v().len() {
                    assert(spec_edges_unique(self.rels_v()));
                } else {
                    assert(spec_edge_match(self.rels_v()[i], tag, from_item_id, to_item_id));
                    assert(self.spec_has_edge(tag, from_item_id, to_item_id));
                }
            }
        }
        self.rels.push(rec);
        Ok(id)
    }

    /// Deletes the edge by triple: a no-op returning zero when the triple
    /// is absent, otherwise a soft delete of the resolved edge, guarded
    /// by the caller's scope.
    pub fn delete_rel(
        &mut self,
        tag: IamRelKind,
        from_item_id: u64,
        to_item_id: u64,
        ctx: &RbumContext,
    ) -> (r: Result<u64, RbumError>)
        requires
            old(self).wf(),
        ensures
            final(self).wf(),
            final(self).next_id == old(self).next_id,
            match r {
                Ok(n) => {
                    &&& (n == 0 || n == 1)
                    &&& (n == 0 <==> !old(self).spec_has_edge(tag, from_item_id, to_item_id))
                    &&& (n == 0 ==> *final(self) == *old(self))
                    &&& (n == 1 ==> {
                        &&& old(self).spec_has_edge(tag, from_item_id, to_item_id)
                        &&& spec_scope_admin(
                            ctx@.own_paths,
                            old(self).spec_edge(tag, from_item_id, to_item_id).own_paths,
                        )
                        &&& final(self).rels_v() =~= old(self).rels_v().update(
                            old(self).spec_edge_idx(tag, from_item_id, to_item_id),
                            (RbumRelV {
                                deleted: true,
                                ..old(self).spec_edge(tag, from_item_id, to_item_id)
                            }),
                        )
                        &&& !final(self).spec_has_edge(tag, from_item_id, to_item_id)
                    })
                },
                Err(e) => {
                    &&& *final(self) == *old(self)
                    &&& e == RbumError::Forbidden
                    &&& old(self).spec_has_edge(tag, from_item_id, to_item_id)
                    &&& !spec_scope_admin(
                        ctx@.own_paths,
                        old(self).spec_edge(tag, from_item_id, to_item_id).own_paths,
                    )
                },
            },
    {
        let i = match self.find_edge_idx(tag, from_item_id, to_item_id) {
            None => {
                return Ok(0);
            },
            Some(i) => i,
        };
        proof {
            self.lemma_edge_at(i as int, tag, from_item_id, to_item_id);
        }
        let rel = &self.rels[i];
        if !is_scope_admin(ctx, &rel.own_paths) {
            return Err(RbumError::Forbidden);
        }
        let mut updated = rel.duplicate();
        updated.deleted = true;
        proof {
            assert(updated@ =~= (RbumRelV {
                deleted: true,
                ..old(self).spec_edge(tag, from_item_id, to_item_id)
            }));
            lemma_map_update(self.rels@, |r: RbumRel| r@, i as int, updated);
            lemma_ids_update(self.rels_v(), |r: RbumRelV| r.id, self.next_id, i as int, updated@);
            let t = self.rels_v().update(i as int, updated@);
            assert forall|p: int, q: int|
                0 <= p < q < t.len() && !t[p].deleted && !t[q].deleted && t[p].tag == t[q].tag
                    && t[p].from_item_id == t[q].from_item_id && t[p].to_item_id
                    == t[q].to_item_id implies false by {
                assert(spec_edges_unique(self.rels_v()));
                assert(!self.rels_v()[p].deleted && !self.rels_v()[q].deleted);
            }
            assert forall|k: int|
                0 <= k < t.len() implies !spec_edge_match(
                #[trigger] t[k],
                tag,
                from_item_id,
                to_item_id,
            ) by {
                if k != i {
                    if spec_edge_match(self.rels_v()[k], tag, from_item_id, to_item_id) {
                        self.lemma_edge_at(k, tag, from_item_id, to_item_id);
                    }
                }
            }
        }
        self.rels.set(i, updated);
        Ok(1)
    }
}

/// Does the live edge leave `from_item_id` under tag `tag`, within the
/// caller's sight?  Edges carry no scope level: they are visible from
/// their own scope and its descendants only.
pub open spec fn spec_rel_from_matches(
    ctx: RbumContextV,
    tag: IamRelKind,
    from_item_id: u64,
    r: RbumRelV,
) -> bool {
    &&& !r.deleted
    &&& r.tag == tag
    &&& r.from_item_id == from_item_id
    &&& spec_visible(ctx.own_paths, r.own_paths, 0, false)
}

/// Dual of [`spec_rel_from_matches`] for the arriving endpoint.
pub open spec fn spec_rel_to_matches(
    ctx: RbumContextV,
    tag: IamRelKind,
    to_item_id: u64,
    r: RbumRelV,
) -> bool {
    &&& !r.deleted
    &&& r.tag == tag
    &&& r.to_item_id == to_item_id
    &&& spec_visible(ctx.own_paths, r.own_paths, 0, false)
}

impl IamRelServ {
    /// The visible live edges leaving `from_item_id` under `tag`.
    pub open spec fn spec_from_rels(
        self,
        ctx: RbumContextV,
        tag: IamRelKind,
        from_item_id: u64,
    ) -> Seq<RbumRelV> {
        self.rels_v().filter(|r: RbumRelV| spec_rel_from_matches(ctx, tag, from_item_id, r))
    }

    /// The visible live edges arriving at `to_item_id` under `tag`.
    pub open spec fn spec_to_rels(
        self,
        ctx: RbumContextV,
        tag: IamRelKind,
        to_item_id: u64,
    ) -> Seq<RbumRelV> {
        self.rels_v().filter(|r: RbumRelV| spec_rel_to_matches(ctx, tag, to_item_id, r))
    }

    /// Pages through the visible edges leaving an item, newest first when
    /// `desc` is set.
    pub fn paginate_from_rels(
        &self,
        tag: IamRelKind,
        from_item_id: u64,
        page_number: u64,
        page_size: u64,
        desc: bool,
        ctx: &RbumContext,
    ) -> (r: Page<RbumRel>)
        requires
            self.wf(),
        ensures
            r.total_size == self.spec_from_rels(ctx@, tag, from_item_id).len(),
            r.records@.map_values(|x: RbumRel| x@) == spec_page_window(
                if desc {
                    self.spec_from_rels(ctx@, tag, from_item_id).reverse()
                } else {
                    self.spec_from_rels(ctx@, tag, from_item_id)
                },
                page_number,
                page_size,
            ),
            r.page_number == page_number,
            r.page_size == page_size,
    {
        let ghost pred = |r: RbumRelV| spec_rel_from_matches(ctx@, tag, from_item_id, r);
        let mut acc: Vec<RbumRel> = Vec::new();
        let n = self.rels.len();
        let mut i: usize = 0;
        while i < n
            invariant
                n == self.rels@.len(),
                i <= n,
                acc@.map_values(|x: RbumRel| x@) =~= self.rels_v().subrange(0, i as int).filter(
                    pred,
                ),
                pred == (|r: RbumRelV| spec_rel_from_matches(ctx@, tag, from_item_id, r)),
            decreases n - i,
        {
            let rel = &self.rels[i];
            let keep = !rel.deleted && rel.tag == tag && rel.from_item_id == from_item_id
                && visible(ctx, &rel.own_paths, 0, false);
            proof {
                assert(keep == pred(self.rels_v()[i as int]));
                lemma_filter_take_push(self.rels_v(), pred, i as int);
            }
            if keep {
                let dup = self.rels[i].duplicate();
                proof {
                    lemma_map_push(acc@, |x: RbumRel| x@, dup);
                }
                acc.push(dup);
            }
            i += 1;
        }
        proof {
            assert(self.rels_v().subrange(0, n as int) =~= self.rels_v());
            self.rels_v().lemma_filter_len(pred);
        }
        let ghost f = |x: RbumRel| x@;
        let ghost filtered = self.spec_from_rels(ctx@, tag, from_item_id);
        let ghost source = if desc {
            filtered.reverse()
        } else {
            filtered
        };
        let total: u64 = acc.len() as u64;
        let ghost accv = acc@;
        let ordered = if desc {
            reverse_vec(acc)
        } else {
            acc
        };
        proof {
            if desc {
                lemma_map_reverse(accv, f);
            }
            assert(ordered@.map_values(f) =~= source);
        }
        let page = page_window(ordered, page_number, page_size);
        proof {
            assert(page.records@.map_values(f) =~= spec_page_window(source, page_number, page_size));
        }
        Page {
            page_number: page.page_number,
            page_size: page.page_size,
            total_size: total,
            records: page.records,
        }
    }

    /// Pages through the visible edges arriving at an item, newest first
    /// when `desc` is set.
    pub fn paginate_to_rels(
        &self,
        tag: IamRelKind,
        to_item_id: u64,
        page_number: u64,
        page_size: u64,
        desc: bool,
        ctx: &RbumContext,
    ) -> (r: Page<RbumRel>)
        requires
            self.wf(),
        ensures
            r.total_size == self.spec_to_rels(ctx@, tag, to_item_id).len(),
            r.records@.map_values(|x: RbumRel| x@) == spec_page_window(
                if desc {
                    self.spec_to_rels(ctx@, tag, to_item_id).reverse()
                } else {
                    self.spec_to_rels(ctx@, tag, to_item_id)
                },
                page_number,
                page_size,
            ),
            r.page_number == page_number,
            r.page_size == page_size,
    {
        let ghost pred = |r: RbumRelV| spec_rel_to_matches(ctx@, tag, to_item_id, r);
        let mut acc: Vec<RbumRel> = Vec::new();
        let n = self.rels.len();
        let mut i: usize = 0;
        while i < n
            invariant
                n == self.rels@.len(),
                i <= n,
                acc@.map_values(|x: RbumRel| x@) =~= self.rels_v().subrange(0, i as int).filter(
                    pred,
                ),
                pred == (|r: RbumRelV| spec_rel_to_matches(ctx@, tag, to_item_id, r)),
            decreases n - i,
        {
            let rel = &self.rels[i];
            let keep = !rel.deleted && rel.tag == tag && rel.to_item_id == to_item_id && visible(
                ctx,
                &rel.own_paths,
                0,
                false,
            );
            proof {
                assert(keep == pred(self.rels_v()[i as int]));
                lemma_filter_take_push(self.rels_v(), pred, i as int);
            }
            if keep {
                let dup = self.rels[i].duplicate();
                proof {
                    lemma_map_push(acc@, |x: RbumRel| x@, dup);
                }
                acc.push(dup);
            }
            i += 1;
        }
        proof {
            assert(self.rels_v().subrange(0, n as int) =~= self.rels_v());
            self.rels_v().lemma_filter_len(pred);
        }
        let ghost f = |x: RbumRel| x@;
        let ghost filtered = self.spec_to_rels(ctx@, tag, to_item_id);
        let ghost source = if desc {
            filtered.reverse()
        } else {
            filtered
        };
        let total: u64 = acc.len() as u64;
        let ghost accv = acc@;
        let ordered = if desc {
            reverse_vec(acc)
        } else {
            acc
        };
        proof {
            if desc {
                lemma_map_reverse(accv, f);
            }
            assert(ordered@.map_values(f) =~= source);
        }
        let page = page_window(ordered, page_number, page_size);
        proof {
            assert(page.records@.map_values(f) =~= spec_page_window(source, page_number, page_size));
        }
        Page {
            page_number: page.page_number,
            page_size: page.page_size,
            total_size: total,
            records: page.records,
        }
    }

    /// The ids of the items a set of edges points at, in listing order;
    /// used to collect, say, every resource reachable through a role.
    pub fn find_to_ids_of_from(&self, tag: IamRelKind, from_item_id: u64, ctx: &RbumContext) -> (r:
        Vec<u64>)
        requires
            self.wf(),
        ensures
            r@ =~= self.spec_from_rels(ctx@, tag, from_item_id).map_values(
                |e: RbumRelV| e.to_item_id,
            ),
    {
        let ghost pred = |r: RbumRelV| spec_rel_from_matches(ctx@, tag, from_item_id, r);
        let mut acc: Vec<u64> = Vec::new();
        let n = self.rels.len();
        let mut i: usize = 0;
        while i < n
            invariant
                n == self.rels@.len(),
                i <= n,
                acc@ =~= self.rels_v().subrange(0, i as int).filter(pred).map_values(
                    |e: RbumRelV| e.to_item_id,
                ),
                pred == (|r: RbumRelV| spec_rel_from_matches(ctx@, tag, from_item_id, r)),
            decreases n - i,
        {
            let rel = &self.rels[i];
            let keep = !rel.deleted && rel.tag == tag && rel.from_item_id == from_item_id
                && visible(ctx, &rel.own_paths, 0, false);
            proof {
                assert(keep == pred(self.rels_v()[i as int]));
                lemma_filter_take_push(self.rels_v(), pred, i as int);
                if keep {
                    lemma_map_push(
                        self.rels_v().subrange(0, i as int).filter(pred),
                        |e: RbumRelV| e.to_item_id,
                        self.rels_v()[i as int],
                    );
                }
            }
            if keep {
                acc.push(rel.to_item_id);
            }
            i += 1;
        }
        proof {
            assert(self.rels_v().subrange(0, n as int) =~= self.rels_v());
        }
        acc
    }
}

/// The stored window of an optional pair of bounds: absent bounds become
/// the unbounded sentinels, two absent bounds mean no window at all.
pub open spec fn spec_window(start: Option<u64>, end: Option<u64>) -> Option<RelEnv> {
    match (start, end) {
        (None, None) => None,
        (s, e) => Some(
            RelEnv {
                start: if s is Some {
                    s->0
                } else {
                    0
                },
                end: if e is Some {
                    e->0
                } else {
                    u64::MAX
                },
            },
        ),
    }
}

/// Law: a relation just added is found again under its triple, and the
/// id found is the id the add returned.
pub proof fn lemma_added_relation_found(pre: IamRelServ, post: IamRelServ, e: RbumRelV)
    requires
        pre.wf(),
        post.wf(),
        !e.deleted,
        !pre.spec_has_edge(e.tag, e.from_item_id, e.to_item_id),
        post.rels_v() == pre.rels_v().push(e),
    ensures
        post.spec_find_rel_id(e.tag, e.from_item_id, e.to_item_id) == Some(e.id),
{
    let n = pre.rels_v().len() as int;
    assert(post.rels_v()[n] == e);
    assert(spec_edge_match(post.rels_v()[n], e.tag, e.from_item_id, e.to_item_id));
    post.lemma_edge_at(n, e.tag, e.from_item_id, e.to_item_id);
}

/// Law: a deleted relation is no longer found: resolving its triple
/// returns nothing.
pub proof fn lemma_deleted_relation_absent(
    pre: IamRelServ,
    post: IamRelServ,
    tag: IamRelKind,
    from_item_id: u64,
    to_item_id: u64,
)
    requires
        pre.wf(),
        pre.spec_has_edge(tag, from_item_id, to_item_id),
        post.rels_v() == pre.rels_v().update(
            pre.spec_edge_idx(tag, from_item_id, to_item_id),
            (RbumRelV { deleted: true, ..pre.spec_edge(tag, from_item_id, to_item_id) }),
        ),
    ensures
        post.spec_find_rel_id(tag, from_item_id, to_item_id) == None::<u64>,
{
    let i = pre.spec_edge_idx(tag, from_item_id, to_item_id);
    assert forall|k: int|
        0 <= k < post.rels_v().len() implies !spec_edge_match(
        #[trigger] post.rels_v()[k],
        tag,
        from_item_id,
        to_item_id,
    ) by {
        if k != i {
            if spec_edge_match(post.rels_v()[k], tag, from_item_id, to_item_id) {
                assert(spec_edge_match(pre.rels_v()[k], tag, from_item_id, to_item_id));
                pre.lemma_edge_at(k, tag, from_item_id, to_item_id);
            }
        }
    }
}

} // verus!

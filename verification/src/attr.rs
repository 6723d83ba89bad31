//! Extended attributes of accounts: per-kind attribute definitions and
//! the per-account values filled in under them.

use vstd::pervasive::VecAdditionalExecFns;
use vstd::prelude::*;

use crate::item::clone_path;
use crate::paging::lemma_filter_take_push;
use crate::paging::lemma_map_push;
use crate::paging::lemma_map_update;
use crate::result::RbumError;
use crate::scope::is_scope_admin;
use crate::scope::spec_scope_admin;
use crate::scope::spec_visible;
use crate::scope::visible;
use crate::scope::RbumContext;
use crate::scope::RbumContextV;
use crate::table::lemma_ids_index_unique;
use crate::table::lemma_ids_push;
use crate::table::lemma_ids_update;
use crate::table::spec_ids_below;
use crate::table::spec_ids_unique;

verus! {

/// Definition of one extended attribute of a kind.
#[derive(Debug)]
pub struct RbumKindAttr {
    pub id: u64,
    pub name: String,
    pub label: String,
    pub note: String,
    pub sort: u32,
    pub data_type: String,
    pub default_value: String,
    pub required: bool,
    pub min_length: u32,
    pub max_length: u32,
    pub rel_kind_id: u64,
    pub scope_level: u32,
    pub own_paths: Vec<u64>,
    pub deleted: bool,
}

/// Mathematical image of an attribute definition.
#[verifier::ext_equal]
pub struct RbumKindAttrV {
    pub id: u64,
    pub name: Seq<char>,
    pub label: Seq<char>,
    pub note: Seq<char>,
    pub sort: u32,
    pub data_type: Seq<char>,
    pub default_value: Seq<char>,
    pub required: bool,
    pub min_length: u32,
    pub max_length: u32,
    pub rel_kind_id: u64,
    pub scope_level: u32,
    pub own_paths: Seq<u64>,
    pub deleted: bool,
}

impl View for RbumKindAttr {
    type V = RbumKindAttrV;

    open spec fn view(&self) -> RbumKindAttrV {
        RbumKindAttrV {
            id: self.id,
            name: self.name@,
            label: self.label@,
            note: self.note@,
            sort: self.sort,
            data_type: self.data_type@,
            default_value: self.default_value@,
            required: self.required,
            min_length: self.min_length,
            max_length: self.max_length,
            rel_kind_id: self.rel_kind_id,
            scope_level: self.scope_level,
            own_paths: self.own_paths@,
            deleted: self.deleted,
        }
    }
}

impl RbumKindAttr {
    pub fn duplicate(&self) -> (r: RbumKindAttr)
        ensures
            r@ == self@,
    {
        let r = RbumKindAttr {
            id: self.id,
            name: self.name.clone(),
            label: self.label.clone(),
            note: self.note.clone(),
            sort: self.sort,
            data_type: self.data_type.clone(),
            default_value: self.default_value.clone(),
            required: self.required,
            min_length: self.min_length,
            max_length: self.max_length,
            rel_kind_id: self.rel_kind_id,
            scope_level: self.scope_level,
            own_paths: clone_path(&self.own_paths),
            deleted: self.deleted,
        };
        proof {
            assert(r@ =~= self@);
        }
        r
    }
}

/// One attribute value filled in for one account.
#[derive(Debug)]
pub struct RbumItemAttr {
    pub id: u64,
    pub value: String,
    pub rel_item_id: u64,
    pub rel_kind_attr_id: u64,
    pub own_paths: Vec<u64>,
    pub deleted: bool,
}

/// Mathematical image of an attribute value.
#[verifier::ext_equal]
pub struct RbumItemAttrV {
    pub id: u64,
    pub value: Seq<char>,
    pub rel_item_id: u64,
    pub rel_kind_attr_id: u64,
    pub own_paths: Seq<u64>,
    pub deleted: bool,
}

impl View for RbumItemAttr {
    type V = RbumItemAttrV;

    open spec fn view(&self) -> RbumItemAttrV {
        RbumItemAttrV {
            id: self.id,
            value: self.value@,
            rel_item_id: self.rel_item_id,
            rel_kind_attr_id: self.rel_kind_attr_id,
            own_paths: self.own_paths@,
            deleted: self.deleted,
        }
    }
}

impl RbumItemAttr {
    pub fn duplicate(&self) -> (r: RbumItemAttr)
        ensures
            r@ == self@,
    {
        let r = RbumItemAttr {
            id: self.id,
            value: self.value.clone(),
            rel_item_id: self.rel_item_id,
            rel_kind_attr_id: self.rel_kind_attr_id,
            own_paths: clone_path(&self.own_paths),
            deleted: self.deleted,
        };
        proof {
            assert(r@ =~= self@);
        }
        r
    }
}

/// Request to define an account attribute.
pub struct IamKindAttrAddReq {
    pub name: String,
    pub label: String,
    pub note: String,
    pub sort: u32,
    pub data_type: String,
    pub default_value: String,
    pub required: bool,
    pub min_length: u32,
    pub max_length: u32,
}

/// The account-attribute service: definitions and values.
pub struct IamAttrServ {
    pub kind_attrs: Vec<RbumKindAttr>,
    pub item_attrs: Vec<RbumItemAttr>,
    pub next_id: u64,
}

impl IamAttrServ {
    pub open spec fn kind_attrs_v(self) -> Seq<RbumKindAttrV> {
        self.kind_attrs@.map_values(|a: RbumKindAttr| a@)
    }

    pub open spec fn item_attrs_v(self) -> Seq<RbumItemAttrV> {
        self.item_attrs@.map_values(|a: RbumItemAttr| a@)
    }

    /// Unique ids below the counter.
    pub open spec fn wf(self) -> bool {
        &&& spec_ids_unique(self.kind_attrs_v(), |a: RbumKindAttrV| a.id)
        &&& spec_ids_below(self.kind_attrs_v(), |a: RbumKindAttrV| a.id, self.next_id)
        &&& spec_ids_unique(self.item_attrs_v(), |a: RbumItemAttrV| a.id)
        &&& spec_ids_below(self.item_attrs_v(), |a: RbumItemAttrV| a.id, self.next_id)
    }

    pub fn new() -> (r: IamAttrServ)
        ensures
            r.wf(),
            r.kind_attrs_v().len() == 0,
            r.item_attrs_v().len() == 0,
            r.next_id == 1,
    {
        IamAttrServ { kind_attrs: Vec::new(), item_attrs: Vec::new(), next_id: 1 }
    }

    pub open spec fn spec_has_attr(self, id: u64) -> bool {
        exists|i: int|
            0 <= i < self.kind_attrs_v().len() && (#[trigger] self.kind_attrs_v()[i]).id == id
    }

    pub open spec fn spec_attr_idx(self, id: u64) -> int {
        choose|i: int|
            0 <= i < self.kind_attrs_v().len() && (#[trigger] self.kind_attrs_v()[i]).id == id
    }

    /// The unique definition carrying `id`.
    pub open spec fn spec_attr(self, id: u64) -> RbumKindAttrV {
        self.kind_attrs_v()[self.spec_attr_idx(id)]
    }

    pub open spec fn spec_has_value(self, id: u64) -> bool {
        exists|i: int|
            0 <= i < self.item_attrs_v().len() && (#[trigger] self.item_attrs_v()[i]).id == id
    }

    pub open spec fn spec_value_idx(self, id: u64) -> int {
        choose|i: int|
            0 <= i < self.item_attrs_v().len() && (#[trigger] self.item_attrs_v()[i]).id == id
    }

    /// The unique value record carrying `id`.
    pub open spec fn spec_value(self, id: u64) -> RbumItemAttrV {
        self.item_attrs_v()[self.spec_value_idx(id)]
    }

    /// Is the definition live and inside the caller's sight?
    pub open spec fn spec_attr_visible(self, id: u64, ctx: RbumContextV, with_sub: bool) -> bool {
        &&& self.spec_has_attr(id)
        &&& !self.spec_attr(id).deleted
        &&& spec_visible(
            ctx.own_paths,
            self.spec_attr(id).own_paths,
            self.spec_attr(id).scope_level as nat,
            with_sub,
        )
    }

    /// Is the value live and inside the caller's sight?
    pub open spec fn spec_value_visible(self, id: u64, ctx: RbumContextV, with_sub: bool) -> bool {
        &&& self.spec_has_value(id)
        &&& !self.spec_value(id).deleted
        &&& spec_visible(ctx.own_paths, self.spec_value(id).own_paths, 0, with_sub)
    }

    pub proof fn lemma_attr_at(self, i: int)
        requires
            self.wf(),
            0 <= i < self.kind_attrs_v().len(),
        ensures
            self.spec_has_attr(self.kind_attrs_v()[i].id),
            self.spec_attr_idx(self.kind_attrs_v()[i].id) == i,
            self.spec_attr(self.kind_attrs_v()[i].id) == self.kind_attrs_v()[i],
    {
        let id = self.kind_attrs_v()[i].id;
        assert(self.spec_has_attr(id));
        let j = self.spec_attr_idx(id);
        lemma_ids_index_unique(self.kind_attrs_v(), |a: RbumKindAttrV| a.id, i, j);
    }

    pub proof fn lemma_value_at(self, i: int)
        requires
            self.wf(),
            0 <= i < self.item_attrs_v().len(),
        ensures
            self.spec_has_value(self.item_attrs_v()[i].id),
            self.spec_value_idx(self.item_attrs_v()[i].id) == i,
            self.spec_value(self.item_attrs_v()[i].id) == self.item_attrs_v()[i],
    {
        let id = self.item_attrs_v()[i].id;
        assert(self.spec_has_value(id));
        let j = self.spec_value_idx(id);
        lemma_ids_index_unique(self.item_attrs_v(), |a: RbumItemAttrV| a.id, i, j);
    }

    fn find_attr_idx(&self, id: u64) -> (r: Option<usize>)
        ensures
            match r {
                Some(i) => i < self.kind_attrs_v().len() && self.kind_attrs_v()[i as int].id == id,
                None => !self.spec_has_attr(id),
            },
    {
        let n = self.kind_attrs.len();
        let mut i: usize = 0;
        while i < n
            invariant
                n == self.kind_attrs@.len(),
                i <= n,
                forall|k: int| 0 <= k < i ==> (#[trigger] self.kind_attrs_v()[k]).id != id,
            decreases n - i,
        {
            if self.kind_attrs[i].id == id {
                return Some(i);
            }
            i += 1;
        }
        None
    }

    fn find_value_idx(&self, id: u64) -> (r: Option<usize>)
        ensures
            match r {
                Some(i) => i < self.item_attrs_v().len() && self.item_attrs_v()[i as int].id == id,
                None => !self.spec_has_value(id),
            },
    {
        let n = self.item_attrs.len();
        let mut i: usize = 0;
        while i < n
            invariant
                n == self.item_attrs@.len(),
                i <= n,
                forall|k: int| 0 <= k < i ==> (#[trigger] self.item_attrs_v()[k]).id != id,
            decreases n - i,
        {
            if self.item_attrs[i].id == id {
                return Some(i);
            }
            i += 1;
        }
        None
    }

    /// Defines an extended attribute of the account kind under the
    /// caller's scope.
    pub fn add_account_attr(
        &mut self,
        add_req: IamKindAttrAddReq,
        scope_level: u32,
        kind_account_id: u64,
        ctx: &RbumContext,
    ) -> (r: u64)
        requires
            old(self).wf(),
            old(self).next_id < u64::MAX,
        ensures
            final(self).wf(),
            r == old(self).next_id,
            final(self).next_id == old(self).next_id + 1,
            final(self).item_attrs_v() == old(self).item_attrs_v(),
            final(self).kind_attrs_v() =~= old(self).kind_attrs_v().push(
                (RbumKindAttrV {
                    id: r,
                    name: add_req.name@,
                    label: add_req.label@,
                    note: add_req.note@,
                    sort: add_req.sort,
                    data_type: add_req.data_type@,
                    default_value: add_req.default_value@,
                    required: add_req.required,
                    min_length: add_req.min_length,
                    max_length: add_req.max_length,
                    rel_kind_id: kind_account_id,
                    scope_level: scope_level,
                    own_paths: ctx@.own_paths,
                    deleted: false,
                }),
            ),
    {
        let id = self.next_id;
        self.next_id = self.next_id + 1;
        let rec = RbumKindAttr {
            id,
            name: add_req.name,
            label: add_req.label,
            note: add_req.note,
            sort: add_req.sort,
            data_type: add_req.data_type,
            default_value: add_req.default_value,
            required: add_req.required,
            min_length: add_req.min_length,
            max_length: add_req.max_length,
            rel_kind_id: kind_account_id,
            scope_level,
            own_paths: clone_path(&ctx.own_paths),
            deleted: false,
        };
        proof {
            lemma_map_push(self.kind_attrs@, |a: RbumKindAttr| a@, rec);
            lemma_ids_push(self.kind_attrs_v(), |a: RbumKindAttrV| a.id, id, rec@, self.next_id);
        }
        self.kind_attrs.push(rec);
        id
    }

    /// Renames or retunes a definition.
    pub fn modify_account_attr(
        &mut self,
        id: u64,
        label: Option<String>,
        sort: Option<u32>,
        default_value: Option<String>,
        required: Option<bool>,
        ctx: &RbumContext,
    ) -> (r: Result<(), RbumError>)
        requires
            old(self).wf(),
        ensures
            final(self).wf(),
            final(self).item_attrs_v() == old(self).item_attrs_v(),
            final(self).next_id == old(self).next_id,
            match r {
                Ok(_) => {
                    &&& old(self).spec_attr_visible(id, ctx@, false)
                    &&& spec_scope_admin(ctx@.own_paths, old(self).spec_attr(id).own_paths)
                    &&& final(self).kind_attrs_v() =~= old(self).kind_attrs_v().update(
                        old(self).spec_attr_idx(id),
                        ({
                            let a = old(self).spec_attr(id);
                            RbumKindAttrV {
                                label: if label is Some {
                                    label->0@
                                } else {
                                    a.label
                                },
                                sort: if sort is Some {
                                    sort->0
                                } else {
                                    a.sort
                                },
                                default_value: if default_value is Some {
                                    default_value->0@
                                } else {
                                    a.default_value
                                },
                                required: if required is Some {
                                    required->0
                                } else {
                                    a.required
                                },
                                ..a
                            }
                        }),
                    )
                },
                Err(e) => {
                    &&& (e == RbumError::NotFound || e == RbumError::Forbidden)
                    &&& *final(self) == *old(self)
                    &&& (e == RbumError::NotFound <==> !old(self).spec_attr_visible(id, ctx@, false))
                    &&& (e == RbumError::Forbidden <==> old(self).spec_attr_visible(id, ctx@, false)
                        && !spec_scope_admin(ctx@.own_paths, old(self).spec_attr(id).own_paths))
                },
            },
    {
        let i = match self.find_attr_idx(id) {
            None => {
                return Err(RbumError::NotFound);
            },
            Some(i) => i,
        };
        proof {
            self.lemma_attr_at(i as int);
        }
        let a = &self.kind_attrs[i];
        if a.deleted {
            return Err(RbumError::NotFound);
        }
        if !visible(ctx, &a.own_paths, a.scope_level, false) {
            return Err(RbumError::NotFound);
        }
        if !is_scope_admin(ctx, &a.own_paths) {
            return Err(RbumError::Forbidden);
        }
        let updated = RbumKindAttr {
            id: a.id,
            name: a.name.clone(),
            label: match label {
                Some(l) => l,
                None => a.label.clone(),
            },
            note: a.note.clone(),
            sort: match sort {
                Some(s) => s,
                None => a.sort,
            },
            data_type: a.data_type.clone(),
            default_value: match default_value {
                Some(d) => d,
                None => a.default_value.clone(),
            },
            required: match required {
                Some(q) => q,
                None => a.required,
            },
            min_length: a.min_length,
            max_length: a.max_length,
            rel_kind_id: a.rel_kind_id,
            scope_level: a.scope_level,
            own_paths: clone_path(&a.own_paths),
            deleted: a.deleted,
        };
        proof {
            lemma_map_update(self.kind_attrs@, |a: RbumKindAttr| a@, i as int, updated);
            lemma_ids_update(
                self.kind_attrs_v(),
                |a: RbumKindAttrV| a.id,
                self.next_id,
                i as int,
                updated@,
            );
        }
        self.kind_attrs.set(i, updated);
        Ok(())
    }

    /// Returns the definition `id` resolves to under the caller's sight.
    pub fn get_account_attr(&self, id: u64, with_sub_own_paths: bool, ctx: &RbumContext) -> (r:
        Result<RbumKindAttr, RbumError>)
        requires
            self.wf(),
        ensures
            match r {
                Ok(a) => self.spec_attr_visible(id, ctx@, with_sub_own_paths) && a@
                    == self.spec_attr(id),
                Err(e) => e == RbumError::NotFound && !self.spec_attr_visible(
                    id,
                    ctx@,
                    with_sub_own_paths,
                ),
            },
    {
        match self.find_attr_idx(id) {
            None => Err(RbumError::NotFound),
            Some(i) => {
                proof {
                    self.lemma_attr_at(i as int);
                }
                let a = &self.kind_attrs[i];
                if a.deleted {
                    return Err(RbumError::NotFound);
                }
                if !visible(ctx, &a.own_paths, a.scope_level, with_sub_own_paths) {
                    return Err(RbumError::NotFound);
                }
                Ok(a.duplicate())
            },
        }
    }

    /// The listing filter as a predicate value: live, of the kind, and
    /// inside the caller's sight.
    pub open spec fn spec_attr_pred(
        ctx: RbumContextV,
        kind_id: u64,
        with_sub: bool,
    ) -> spec_fn(RbumKindAttrV) -> bool {
        |a: RbumKindAttrV|
            !a.deleted && a.rel_kind_id == kind_id && spec_visible(
                ctx.own_paths,
                a.own_paths,
                a.scope_level as nat,
                with_sub,
            )
    }

    /// The live definitions of one kind inside the caller's sight, in
    /// insertion order.
    pub open spec fn spec_attrs_found(
        self,
        ctx: RbumContextV,
        kind_id: u64,
        with_sub: bool,
    ) -> Seq<RbumKindAttrV> {
        self.kind_attrs_v().filter(Self::spec_attr_pred(ctx, kind_id, with_sub))
    }

    /// Law: a live definition of the kind inside the caller's sight — in
    /// particular one created under the caller's own path, or one whose
    /// scope level reaches the root — is always listed.
    pub proof fn lemma_attr_listing_contains(
        self,
        ctx: RbumContextV,
        kind_id: u64,
        with_sub: bool,
        i: int,
    )
        requires
            0 <= i < self.kind_attrs_v().len(),
            !self.kind_attrs_v()[i].deleted,
            self.kind_attrs_v()[i].rel_kind_id == kind_id,
            spec_visible(
                ctx.own_paths,
                self.kind_attrs_v()[i].own_paths,
                self.kind_attrs_v()[i].scope_level as nat,
                with_sub,
            ),
        ensures
            self.spec_attrs_found(ctx, kind_id, with_sub).contains(self.kind_attrs_v()[i]),
    {
        let pred = Self::spec_attr_pred(ctx, kind_id, with_sub);
        assert(pred(self.kind_attrs_v()[i]));
        self.kind_attrs_v().lemma_filter_contains(pred, i);
    }

    /// Law: a definition outside the caller's sight is never listed —
    /// list operations silently drop invisible rows.
    pub proof fn lemma_attr_listing_excludes(
        self,
        ctx: RbumContextV,
        kind_id: u64,
        with_sub: bool,
        a: RbumKindAttrV,
    )
        requires
            !spec_visible(ctx.own_paths, a.own_paths, a.scope_level as nat, with_sub),
        ensures
            !self.spec_attrs_found(ctx, kind_id, with_sub).contains(a),
    {
        let pred = Self::spec_attr_pred(ctx, kind_id, with_sub);
        let found = self.spec_attrs_found(ctx, kind_id, with_sub);
        if found.contains(a) {
            let w = choose|w: int| 0 <= w < found.len() && found[w] == a;
            self.kind_attrs_v().lemma_filter_pred(pred, w);
        }
    }

    /// Are the definitions ordered by descending sort key?
    pub open spec fn spec_sorted_by_sort_desc(s: Seq<RbumKindAttrV>) -> bool {
        forall|i: int, j: int| 0 <= i < j < s.len() ==> s[i].sort >= s[j].sort
    }

    /// Lists the visible definitions of the account kind, ordered by
    /// descending sort key: the result is a permutation of the filtered
    /// listing, largest sort keys first.
    pub fn find_account_attrs(
        &self,
        with_sub_own_paths: bool,
        kind_account_id: u64,
        ctx: &RbumContext,
    ) -> (r: Vec<RbumKindAttr>)
        requires
            self.wf(),
        ensures
            r@.map_values(|a: RbumKindAttr| a@).to_multiset() == self.spec_attrs_found(
                ctx@,
                kind_account_id,
                with_sub_own_paths,
            ).to_multiset(),
            Self::spec_sorted_by_sort_desc(r@.map_values(|a: RbumKindAttr| a@)),
    {
        let ghost pred = Self::spec_attr_pred(ctx@, kind_account_id, with_sub_own_paths);
        let mut acc: Vec<RbumKindAttr> = Vec::new();
        let n = self.kind_attrs.len();
        let mut i: usize = 0;
        while i < n
            invariant
                n == self.kind_attrs@.len(),
                i <= n,
                acc@.map_values(|a: RbumKindAttr| a@) =~= self.kind_attrs_v().subrange(
                    0,
                    i as int,
                ).filter(pred),
                pred == Self::spec_attr_pred(ctx@, kind_account_id, with_sub_own_paths),
            decreases n - i,
        {
            let a = &self.kind_attrs[i];
            let keep = !a.deleted && a.rel_kind_id == kind_account_id && visible(
                ctx,
                &a.own_paths,
                a.scope_level,
                with_sub_own_paths,
            );
            proof {
                assert(keep == pred(self.kind_attrs_v()[i as int]));
                lemma_filter_take_push(self.kind_attrs_v(), pred, i as int);
            }
            if keep {
                let dup = self.kind_attrs[i].duplicate();
                proof {
                    lemma_map_push(acc@, |a: RbumKindAttr| a@, dup);
                }
                acc.push(dup);
            }
            i += 1;
        }
        proof {
            assert(self.kind_attrs_v().subrange(0, n as int) =~= self.kind_attrs_v());
        }
        Self::sort_attrs_desc(acc)
    }

    /// Orders definitions by descending sort key: repeatedly extracts a
    /// largest remaining element, so the result is a permutation of the
    /// input.
    fn sort_attrs_desc(v: Vec<RbumKindAttr>) -> (r: Vec<RbumKindAttr>)
        ensures
            r@.map_values(|a: RbumKindAttr| a@).to_multiset() == v@.map_values(
                |a: RbumKindAttr| a@,
            ).to_multiset(),
            Self::spec_sorted_by_sort_desc(r@.map_values(|a: RbumKindAttr| a@)),
    {
        let ghost f = |a: RbumKindAttr| a@;
        let ghost morig = v@.map_values(f).to_multiset();
        let mut rem = v;
        let mut out: Vec<RbumKindAttr> = Vec::new();
        proof {
            assert(out@.map_values(f) =~= Seq::<RbumKindAttrV>::empty());
            out@.map_values(f).to_multiset_ensures();
            assert forall|a: RbumKindAttrV| #[trigger] out@.map_values(f).to_multiset().count(a)
                == 0 by {
                assert(!out@.map_values(f).contains(a));
            }
            assert(out@.map_values(f).to_multiset().add(rem@.map_values(f).to_multiset())
                =~= morig);
        }
        while rem.len() > 0
            invariant
                out@.map_values(f).to_multiset().add(rem@.map_values(f).to_multiset()) =~= morig,
                Self::spec_sorted_by_sort_desc(out@.map_values(f)),
                forall|i: int, j: int|
                    0 <= i < out@.len() && 0 <= j < rem@.len() ==> (#[trigger] out@[i]@).sort >= (
                    #[trigger] rem@[j]@).sort,
                f == (|a: RbumKindAttr| a@),
                morig == v@.map_values(f).to_multiset(),
            decreases rem@.len(),
        {
            let n = rem.len();
            let mut mi: usize = 0;
            let mut k: usize = 1;
            while k < n
                invariant
                    n == rem@.len(),
                    mi < n,
                    k <= n,
                    forall|j: int| 0 <= j < k ==> (#[trigger] rem@[j]@).sort <= rem@[mi as int]@.sort,
                decreases n - k,
            {
                if rem[k].sort > rem[mi].sort {
                    mi = k;
                }
                k += 1;
            }
            let ghost pre_rem = rem@;
            let ghost pre_out = out@;
            let x = rem.remove(mi);
            proof {
                crate::paging::lemma_map_remove(pre_rem, f, mi as int);
                pre_rem.map_values(f).to_multiset_ensures();
                lemma_map_push(pre_out, f, x);
                pre_out.map_values(f).to_multiset_ensures();
                assert(x == pre_rem[mi as int]);
                assert(rem@.map_values(f).to_multiset() =~= pre_rem.map_values(f).to_multiset()
                    .remove(f(x)));
                assert(out@.push(x).map_values(f).to_multiset() =~= pre_out.map_values(
                    f,
                ).to_multiset().insert(f(x)));
                assert(pre_rem.map_values(f).to_multiset().count(f(x)) > 0) by {
                    assert(pre_rem.map_values(f)[mi as int] == f(x));
                    assert(pre_rem.map_values(f).contains(f(x)));
                }
                assert(pre_out.map_values(f).to_multiset().insert(f(x)).add(
                    pre_rem.map_values(f).to_multiset().remove(f(x)),
                ) =~= pre_out.map_values(f).to_multiset().add(pre_rem.map_values(f).to_multiset()));
            }
            out.push(x);
        }
        proof {
            assert(rem@.map_values(f) =~= Seq::<RbumKindAttrV>::empty());
            rem@.map_values(f).to_multiset_ensures();
            assert forall|a: RbumKindAttrV| #[trigger] rem@.map_values(f).to_multiset().count(a)
                == 0 by {
                assert(!rem@.map_values(f).contains(a));
            }
            assert(out@.map_values(f).to_multiset() =~= morig);
        }
        out
    }

    /// Soft-deletes a definition.
    pub fn delete_account_attr(&mut self, id: u64, ctx: &RbumContext) -> (r: Result<u64, RbumError>)
        requires
            old(self).wf(),
        ensures
            final(self).wf(),
            final(self).item_attrs_v() == old(self).item_attrs_v(),
            final(self).next_id == old(self).next_id,
            match r {
                Ok(n) => {
                    &&& n == 1
                    &&& old(self).spec_attr_visible(id, ctx@, false)
                    &&& spec_scope_admin(ctx@.own_paths, old(self).spec_attr(id).own_paths)
                    &&& final(self).kind_attrs_v() =~= old(self).kind_attrs_v().update(
                        old(self).spec_attr_idx(id),
                        (RbumKindAttrV { deleted: true, ..old(self).spec_attr(id) }),
                    )
                },
                Err(e) => {
                    &&& (e == RbumError::NotFound || e == RbumError::Forbidden)
                    &&& *final(self) == *old(self)
                    &&& (e == RbumError::NotFound <==> !old(self).spec_attr_visible(id, ctx@, false))
                    &&& (e == RbumError::Forbidden <==> old(self).spec_attr_visible(id, ctx@, false)
                        && !spec_scope_admin(ctx@.own_paths, old(self).spec_attr(id).own_paths))
                },
            },
    {
        let i = match self.find_attr_idx(id) {
            None => {
                return Err(RbumError::NotFound);
            },
            Some(i) => i,
        };
        proof {
            self.lemma_attr_at(i as int);
        }
        let a = &self.kind_attrs[i];
        if a.deleted {
            return Err(RbumError::NotFound);
        }
        if !visible(ctx, &a.own_paths, a.scope_level, false) {
            return Err(RbumError::NotFound);
        }
        if !is_scope_admin(ctx, &a.own_paths) {
            return Err(RbumError::Forbidden);
        }
        let mut updated = a.duplicate();
        updated.deleted = true;
        proof {
            assert(updated@ =~= (RbumKindAttrV { deleted: true, ..old(self).spec_attr(id) }));
            lemma_map_update(self.kind_attrs@, |a: RbumKindAttr| a@, i as int, updated);
            lemma_ids_update(
                self.kind_attrs_v(),
                |a: RbumKindAttrV| a.id,
                self.next_id,
                i as int,
                updated@,
            );
        }
        self.kind_attrs.set(i, updated);
        Ok(1)
    }

    /// Fills in a value of a defined attribute for an account.
    /// `NotFound` when the definition does not resolve under the
    /// caller's sight.
    pub fn add_account_attr_value(
        &mut self,
        value: String,
        attr_id: u64,
        account_id: u64,
        ctx: &RbumContext,
    ) -> (r: Result<u64, RbumError>)
        requires
            old(self).wf(),
            old(self).next_id < u64::MAX,
        ensures
            final(self).wf(),
            final(self).kind_attrs_v() == old(self).kind_attrs_v(),
            match r {
                Ok(id) => {
                    &&& old(self).spec_attr_visible(attr_id, ctx@, false)
                    &&& id == old(self).next_id
                    &&& final(self).next_id == old(self).next_id + 1
                    &&& final(self).item_attrs_v() =~= old(self).item_attrs_v().push(
                        (RbumItemAttrV {
                            id: id,
                            value: value@,
                            rel_item_id: account_id,
                            rel_kind_attr_id: attr_id,
                            own_paths: ctx@.own_paths,
                            deleted: false,
                        }),
                    )
                },
                Err(e) => {
                    &&& *final(self) == *old(self)
                    &&& e == RbumError::NotFound
                    &&& !old(self).spec_attr_visible(attr_id, ctx@, false)
                },
            },
    {
        let i = match self.find_attr_idx(attr_id) {
            None => {
                return Err(RbumError::NotFound);
            },
            Some(i) => i,
        };
        proof {
            self.lemma_attr_at(i as int);
        }
        let a = &self.kind_attrs[i];
        if a.deleted {
            return Err(RbumError::NotFound);
        }
        if !visible(ctx, &a.own_paths, a.scope_level, false) {
            return Err(RbumError::NotFound);
        }
        let id = self.next_id;
        self.next_id = self.next_id + 1;
        let rec = RbumItemAttr {
            id,
            value,
            rel_item_id: account_id,
            rel_kind_attr_id: attr_id,
            own_paths: clone_path(&ctx.own_paths),
            deleted: false,
        };
        proof {
            lemma_map_push(self.item_attrs@, |a: RbumItemAttr| a@, rec);
            lemma_ids_push(self.item_attrs_v(), |a: RbumItemAttrV| a.id, id, rec@, self.next_id);
        }
        self.item_attrs.push(rec);
        Ok(id)
    }

    /// Overwrites a filled-in value.
    pub fn modify_account_attr_value(&mut self, value_id: u64, value: String, ctx: &RbumContext) -> (r:
        Result<(), RbumError>)
        requires
            old(self).wf(),
        ensures
            final(self).wf(),
            final(self).kind_attrs_v() == old(self).kind_attrs_v(),
            final(self).next_id == old(self).next_id,
            match r {
                Ok(_) => {
                    &&& old(self).spec_value_visible(value_id, ctx@, false)
                    &&& spec_scope_admin(ctx@.own_paths, old(self).spec_value(value_id).own_paths)
                    &&& final(self).item_attrs_v() =~= old(self).item_attrs_v().update(
                        old(self).spec_value_idx(value_id),
                        (RbumItemAttrV { value: value@, ..old(self).spec_value(value_id) }),
                    )
                },
                Err(e) => {
                    &&& (e == RbumError::NotFound || e == RbumError::Forbidden)
                    &&& *final(self) == *old(self)
                    &&& (e == RbumError::NotFound <==> !old(self).spec_value_visible(
                        value_id,
                        ctx@,
                        false,
                    ))
                    &&& (e == RbumError::Forbidden <==> old(self).spec_value_visible(
                        value_id,
                        ctx@,
                        false,
                    ) && !spec_scope_admin(
                        ctx@.own_paths,
                        old(self).spec_value(value_id).own_paths,
                    ))
                },
            },
    {
        let i = match self.find_value_idx(value_id) {
            None => {
                return Err(RbumError::NotFound);
            },
            Some(i) => i,
        };
        proof {
            self.lemma_value_at(i as int);
        }
        let v = &self.item_attrs[i];
        if v.deleted {
            return Err(RbumError::NotFound);
        }
        if !visible(ctx, &v.own_paths, 0, false) {
            return Err(RbumError::NotFound);
        }
        if !is_scope_admin(ctx, &v.own_paths) {
            return Err(RbumError::Forbidden);
        }
        let updated = RbumItemAttr {
            id: v.id,
            value,
            rel_item_id: v.rel_item_id,
            rel_kind_attr_id: v.rel_kind_attr_id,
            own_paths: clone_path(&v.own_paths),
            deleted: v.deleted,
        };
        proof {
            lemma_map_update(self.item_attrs@, |a: RbumItemAttr| a@, i as int, updated);
            lemma_ids_update(
                self.item_attrs_v(),
                |a: RbumItemAttrV| a.id,
                self.next_id,
                i as int,
                updated@,
            );
        }
        self.item_attrs.set(i, updated);
        Ok(())
    }

    /// Returns the value record `id` resolves to under the caller's
    /// sight.
    pub fn get_account_attr_value(
        &self,
        value_id: u64,
        with_sub_own_paths: bool,
        ctx: &RbumContext,
    ) -> (r: Result<RbumItemAttr, RbumError>)
        requires
            self.wf(),
        ensures
            match r {
                Ok(v) => self.spec_value_visible(value_id, ctx@, with_sub_own_paths) && v@
                    == self.spec_value(value_id),
                Err(e) => e == RbumError::NotFound && !self.spec_value_visible(
                    value_id,
                    ctx@,
                    with_sub_own_paths,
                ),
            },
    {
        match self.find_value_idx(value_id) {
            None => Err(RbumError::NotFound),
            Some(i) => {
                proof {
                    self.lemma_value_at(i as int);
                }
                let v = &self.item_attrs[i];
                if v.deleted {
                    return Err(RbumError::NotFound);
                }
                if !visible(ctx, &v.own_paths, 0, with_sub_own_paths) {
                    return Err(RbumError::NotFound);
                }
                Ok(v.duplicate())
            },
        }
    }

    /// Soft-deletes a filled-in value.
    pub fn delete_account_attr_value(&mut self, value_id: u64, ctx: &RbumContext) -> (r: Result<
        u64,
        RbumError,
    >)
        requires
            old(self).wf(),
        ensures
            final(self).wf(),
            final(self).kind_attrs_v() == old(self).kind_attrs_v(),
            final(self).next_id == old(self).next_id,
            match r {
                Ok(n) => {
                    &&& n == 1
                    &&& old(self).spec_value_visible(value_id, ctx@, false)
                    &&& spec_scope_admin(ctx@.own_paths, old(self).spec_value(value_id).own_paths)
                    &&& final(self).item_attrs_v() =~= old(self).item_attrs_v().update(
                        old(self).spec_value_idx(value_id),
                        (RbumItemAttrV { deleted: true, ..old(self).spec_value(value_id) }),
                    )
                },
                Err(e) => {
                    &&& (e == RbumError::NotFound || e == RbumError::Forbidden)
                    &&& *final(self) == *old(self)
                    &&& (e == RbumError::NotFound <==> !old(self).spec_value_visible(
                        value_id,
                        ctx@,
                        false,
                    ))
                    &&& (e == RbumError::Forbidden <==> old(self).spec_value_visible(
                        value_id,
                        ctx@,
                        false,
                    ) && !spec_scope_admin(
                        ctx@.own_paths,
                        old(self).spec_value(value_id).own_paths,
                    ))
                },
            },
    {
        let i = match self.find_value_idx(value_id) {
            None => {
                return Err(RbumError::NotFound);
            },
            Some(i) => i,
        };
        proof {
            self.lemma_value_at(i as int);
        }
        let v = &self.item_attrs[i];
        if v.deleted {
            return Err(RbumError::NotFound);
        }
        if !visible(ctx, &v.own_paths, 0, false) {
            return Err(RbumError::NotFound);
        }
        if !is_scope_admin(ctx, &v.own_paths) {
            return Err(RbumError::Forbidden);
        }
        let mut updated = v.duplicate();
        updated.deleted = true;
        proof {
            assert(updated@ =~= (RbumItemAttrV {
                deleted: true,
                ..old(self).spec_value(value_id)
            }));
            lemma_map_update(self.item_attrs@, |a: RbumItemAttr| a@, i as int, updated);
            lemma_ids_update(
                self.item_attrs_v(),
                |a: RbumItemAttrV| a.id,
                self.next_id,
                i as int,
                updated@,
            );
        }
        self.item_attrs.set(i, updated);
        Ok(1)
    }
}

} // verus!

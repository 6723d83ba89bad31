//! Hierarchical category trees: org charts, menu trees and API trees.
//!
//! A set is one tree; its categories carry positional codes
//! ([`crate::sys_code::SysCode`]) so that subtree queries are prefix
//! tests, never recursive walks.  A new sibling takes the next code after
//! the largest existing sibling; the first child of a parent appends a
//! zero block.  Items attach to categories with a sort key.  The menu and
//! API trees of a resource set are ordinary subtrees rooted at the two
//! reserved root codes.

use vstd::pervasive::VecAdditionalExecFns;
use vstd::prelude::*;

use crate::item::clone_path;
use crate::paging::lemma_filter_take_push;
use crate::paging::lemma_map_push;
use crate::paging::lemma_map_update;
use crate::result::RbumError;
use crate::scope::is_scope_admin;
use crate::scope::spec_scope_admin;
use crate::scope::spec_visible;
use crate::scope::visible;
use crate::scope::RbumContext;
use crate::scope::RbumContextV;
use crate::sys_code::digit_str;
use crate::sys_code::spec_code_prefix;
use crate::sys_code::spec_code_wf;
use crate::sys_code::spec_digit_char;
use crate::sys_code::SysCode;
use crate::sys_code::SYS_CODE_NODE_SPACE;
use crate::table::lemma_ids_index_unique;
use crate::table::lemma_ids_push;
use crate::table::lemma_ids_update;
use crate::table::spec_ids_below;
use crate::table::spec_ids_unique;

verus! {

/// What a set models.
#[derive(Clone, Copy, Debug, PartialEq, Eq, Structural)]
pub enum IamSetKind {
    /// An organizational tree.
    Org,
    /// The resource tree (menus and APIs).
    Res,
    /// The application tree.
    Apps,
}

impl IamSetKind {
    pub open spec fn spec_code(self) -> Seq<char> {
        match self {
            IamSetKind::Org => seq!['o', 'r', 'g'],
            IamSetKind::Res => seq!['r', 'e', 's'],
            IamSetKind::Apps => seq!['a', 'p', 'p', 's'],
        }
    }

    /// The lower-case token naming this kind inside set codes.
    pub fn code(&self) -> (r: &'static str)
        ensures
            r@ == self.spec_code(),
    {
        let r: &'static str = match self {
            IamSetKind::Org => "org",
            IamSetKind::Res => "res",
            IamSetKind::Apps => "apps",
        };
        proof {
            reveal_strlit("org");
            reveal_strlit("res");
            reveal_strlit("apps");
            assert(r@ =~= self.spec_code());
        }
        r
    }
}

/// How a code filter selects categories.
#[derive(Clone, Copy, Debug, PartialEq, Eq, Structural)]
pub enum RbumSetCateLevelQueryKind {
    /// Exact code equality.
    Current,
    /// The code and its whole subtree.
    CurrentAndSub,
}

/// The decimal character form of an id segment.
pub open spec fn spec_dec_chars(n: u64) -> Seq<char>
    decreases n,
{
    if n < 10 {
        seq![spec_digit_char(n as u32)]
    } else {
        spec_dec_chars(n / 10) + seq![spec_digit_char((n % 10) as u32)]
    }
}

/// Renders an id segment in decimal.
pub fn u64_dec_string(n: u64) -> (r: String)
    ensures
        r@ =~= spec_dec_chars(n),
    decreases n,
{
    if n < 10 {
        let mut s = String::new();
        s.append(digit_str(n as u32));
        proof {
            assert(s@ =~= spec_dec_chars(n));
        }
        s
    } else {
        let mut s = u64_dec_string(n / 10);
        s.append(digit_str((n % 10) as u32));
        proof {
            assert(s@ =~= spec_dec_chars(n));
        }
        s
    }
}

/// The character form of an ownership path: decimal segments joined by
/// slashes.
pub open spec fn spec_path_chars(s: Seq<u64>) -> Seq<char>
    decreases s.len(),
{
    if s.len() == 0 {
        Seq::<char>::empty()
    } else if s.len() == 1 {
        spec_dec_chars(s[0])
    } else {
        spec_path_chars(s.drop_last()) + seq!['/'] + spec_dec_chars(s.last())
    }
}

/// Serializes an ownership path for use inside set codes.
pub fn path_string(path: &Vec<u64>) -> (r: String)
    ensures
        r@ =~= spec_path_chars(path@),
{
    let mut out = String::new();
    let n = path.len();
    let mut i: usize = 0;
    while i < n
        invariant
            n == path@.len(),
            i <= n,
            out@ =~= spec_path_chars(path@.subrange(0, i as int)),
        decreases n - i,
    {
        if i > 0 {
            out.append("/");
            proof {
                reveal_strlit("/");
                assert("/"@ =~= seq!['/']);
            }
        }
        let seg = u64_dec_string(path[i]);
        out.append(seg.as_str());
        proof {
            let sub = path@.subrange(0, i + 1);
            assert(sub.drop_last() =~= path@.subrange(0, i as int));
            assert(sub.last() == path@[i as int]);
            assert(out@ =~= spec_path_chars(sub));
        }
        i += 1;
    }
    proof {
        assert(path@.subrange(0, n as int) =~= path@);
    }
    out
}

/// The default code of a set: the owning path's character form, a colon,
/// and the kind's token.
pub open spec fn spec_default_code(kind: IamSetKind, own_paths: Seq<char>) -> Seq<char> {
    own_paths + seq![':'] + kind.spec_code()
}

/// One tree.
#[derive(Debug)]
pub struct RbumSet {
    pub id: u64,
    pub code: String,
    pub kind: IamSetKind,
    pub name: String,
    pub scope_level: u32,
    pub own_paths: Vec<u64>,
    pub deleted: bool,
}

/// Mathematical image of a set.
#[verifier::ext_equal]
pub struct RbumSetV {
    pub id: u64,
    pub code: Seq<char>,
    pub kind: IamSetKind,
    pub name: Seq<char>,
    pub scope_level: u32,
    pub own_paths: Seq<u64>,
    pub deleted: bool,
}

impl View for RbumSet {
    type V = RbumSetV;

    open spec fn view(&self) -> RbumSetV {
        RbumSetV {
            id: self.id,
            code: self.code@,
            kind: self.kind,
            name: self.name@,
            scope_level: self.scope_level,
            own_paths: self.own_paths@,
            deleted: self.deleted,
        }
    }
}

/// One tree node.
#[derive(Debug)]
pub struct RbumSetCate {
    pub id: u64,
    pub rel_set_id: u64,
    pub sys_code: SysCode,
    pub bus_code: String,
    pub name: String,
    pub ext: String,
    pub sort: u32,
    pub scope_level: u32,
    pub own_paths: Vec<u64>,
    pub deleted: bool,
}

/// Mathematical image of a tree node.
#[verifier::ext_equal]
pub struct RbumSetCateV {
    pub id: u64,
    pub rel_set_id: u64,
    pub sys_code: Seq<u32>,
    pub bus_code: Seq<char>,
    pub name: Seq<char>,
    pub ext: Seq<char>,
    pub sort: u32,
    pub scope_level: u32,
    pub own_paths: Seq<u64>,
    pub deleted: bool,
}

impl View for RbumSetCate {
    type V = RbumSetCateV;

    open spec fn view(&self) -> RbumSetCateV {
        RbumSetCateV {
            id: self.id,
            rel_set_id: self.rel_set_id,
            sys_code: self.sys_code.nodes@,
            bus_code: self.bus_code@,
            name: self.name@,
            ext: self.ext@,
            sort: self.sort,
            scope_level: self.scope_level,
            own_paths: self.own_paths@,
            deleted: self.deleted,
        }
    }
}

impl RbumSetCate {
    pub fn duplicate(&self) -> (r: RbumSetCate)
        ensures
            r@ == self@,
    {
        let r = RbumSetCate {
            id: self.id,
            rel_set_id: self.rel_set_id,
            sys_code: self.sys_code.clone_code(),
            bus_code: self.bus_code.clone(),
            name: self.name.clone(),
            ext: self.ext.clone(),
            sort: self.sort,
            scope_level: self.scope_level,
            own_paths: clone_path(&self.own_paths),
            deleted: self.deleted,
        };
        proof {
            assert(r@ =~= self@);
        }
        r
    }
}

/// One attachment of a resource item to a tree node.
#[derive(Debug)]
pub struct RbumSetItem {
    pub id: u64,
    pub rel_set_id: u64,
    pub rel_cate_id: u64,
    pub rel_item_id: u64,
    pub sort: u32,
    pub own_paths: Vec<u64>,
    pub deleted: bool,
}

/// Mathematical image of an attachment.
#[verifier::ext_equal]
pub struct RbumSetItemV {
    pub id: u64,
    pub rel_set_id: u64,
    pub rel_cate_id: u64,
    pub rel_item_id: u64,
    pub sort: u32,
    pub own_paths: Seq<u64>,
    pub deleted: bool,
}

impl View for RbumSetItem {
    type V = RbumSetItemV;

    open spec fn view(&self) -> RbumSetItemV {
        RbumSetItemV {
            id: self.id,
            rel_set_id: self.rel_set_id,
            rel_cate_id: self.rel_cate_id,
            rel_item_id: self.rel_item_id,
            sort: self.sort,
            own_paths: self.own_paths@,
            deleted: self.deleted,
        }
    }
}

impl RbumSetItem {
    pub fn duplicate(&self) -> (r: RbumSetItem)
        ensures
            r@ == self@,
    {
        let r = RbumSetItem {
            id: self.id,
            rel_set_id: self.rel_set_id,
            rel_cate_id: self.rel_cate_id,
            rel_item_id: self.rel_item_id,
            sort: self.sort,
            own_paths: clone_path(&self.own_paths),
            deleted: self.deleted,
        };
        proof {
            assert(r@ =~= self@);
        }
        r
    }
}

/// Is the node carrying `a` a parent-or-equal of the node carrying `b`,
/// or a sibling of it (same parent slot, any last block)?
pub open spec fn spec_parent_or_sibling(a: Seq<u32>, b: Seq<u32>) -> bool {
    ||| spec_code_prefix(a, b)
    ||| (a.len() == b.len() && a.len() >= 1 && a.subrange(0, a.len() - 1) == b.subrange(
        0,
        b.len() - 1,
    ))
}

/// Decides [`spec_parent_or_sibling`] on two codes.
pub fn parent_or_sibling(a: &SysCode, b: &SysCode) -> (r: bool)
    ensures
        r == spec_parent_or_sibling(a.nodes@, b.nodes@),
{
    if a.is_prefix_of(b) {
        return true;
    }
    let alen = a.nodes.len();
    if alen != b.nodes.len() || alen == 0 {
        return false;
    }
    let mut i: usize = 0;
    while i < alen - 1
        invariant
            alen == a.nodes@.len(),
            alen == b.nodes@.len(),
            alen >= 1,
            i <= alen - 1,
            forall|k: int| 0 <= k < i ==> a.nodes@[k] == b.nodes@[k],
        decreases alen - i,
    {
        if a.nodes[i] != b.nodes[i] {
            proof {
                assert(a.nodes@.subrange(0, a.nodes@.len() - 1)[i as int] != b.nodes@.subrange(
                    0,
                    b.nodes@.len() - 1,
                )[i as int]);
            }
            return false;
        }
        i += 1;
    }
    proof {
        assert(a.nodes@.subrange(0, a.nodes@.len() - 1) =~= b.nodes@.subrange(
            0,
            b.nodes@.len() - 1,
        ));
    }
    true
}

/// Is `c` a direct child slot of `prefix` within set `set_id`?  Codes of
/// deleted nodes stay reserved, so allocation ranges over every record.
pub open spec fn spec_is_sibling(c: RbumSetCateV, set_id: u64, prefix: Seq<u32>) -> bool {
    &&& c.rel_set_id == set_id
    &&& c.sys_code.len() == prefix.len() + 1
    &&& c.sys_code.subrange(0, prefix.len() as int) == prefix
}

/// The category-tree service: sets, their nodes and attachments.
pub struct IamSetServ {
    pub sets: Vec<RbumSet>,
    pub cates: Vec<RbumSetCate>,
    pub items: Vec<RbumSetItem>,
    pub next_id: u64,
}

impl IamSetServ {
    pub open spec fn sets_v(self) -> Seq<RbumSetV> {
        self.sets@.map_values(|r: RbumSet| r@)
    }

    pub open spec fn cates_v(self) -> Seq<RbumSetCateV> {
        self.cates@.map_values(|r: RbumSetCate| r@)
    }

    pub open spec fn items_v(self) -> Seq<RbumSetItemV> {
        self.items@.map_values(|r: RbumSetItem| r@)
    }

    /// Unique ids below the counter; live set codes unique; within one
    /// set no two nodes ever share a positional code, and every stored
    /// code is well-formed and non-empty.
    pub open spec fn wf(self) -> bool {
        &&& spec_ids_unique(self.sets_v(), |r: RbumSetV| r.id)
        &&& spec_ids_below(self.sets_v(), |r: RbumSetV| r.id, self.next_id)
        &&& spec_ids_unique(self.cates_v(), |r: RbumSetCateV| r.id)
        &&& spec_ids_below(self.cates_v(), |r: RbumSetCateV| r.id, self.next_id)
        &&& spec_ids_unique(self.items_v(), |r: RbumSetItemV| r.id)
        &&& spec_ids_below(self.items_v(), |r: RbumSetItemV| r.id, self.next_id)
        &&& (forall|i: int, j: int|
            0 <= i < j < self.sets_v().len() && !self.sets_v()[i].deleted
                && !self.sets_v()[j].deleted && self.sets_v()[i].code == self.sets_v()[j].code
                ==> false)
        &&& (forall|i: int, j: int|
            0 <= i < j < self.cates_v().len() && self.cates_v()[i].rel_set_id == self.cates_v()[
                j
            ].rel_set_id && self.cates_v()[i].sys_code == self.cates_v()[j].sys_code ==> false)
        &&& (forall|i: int|
            0 <= i < self.cates_v().len() ==> spec_code_wf(
                (#[trigger] self.cates_v()[i]).sys_code,
            ) && self.cates_v()[i].sys_code.len() >= 1)
        &&& (forall|i: int|
            0 <= i < self.cates_v().len() ==> (#[trigger] self.cates_v()[i]).rel_set_id
                < self.next_id)
        &&& (forall|i: int|
            0 <= i < self.items_v().len() && !(#[trigger] self.items_v()[i]).deleted
                ==> self.spec_cate_live(self.items_v()[i].rel_cate_id))
    }

    /// Is a live tree node registered under this id?
    pub open spec fn spec_cate_live(self, id: u64) -> bool {
        exists|i: int|
            0 <= i < self.cates_v().len() && (#[trigger] self.cates_v()[i]).id == id
                && !self.cates_v()[i].deleted
    }

    pub fn new() -> (r: IamSetServ)
        ensures
            r.wf(),
            r.sets_v().len() == 0,
            r.cates_v().len() == 0,
            r.items_v().len() == 0,
            r.next_id == 1,
    {
        IamSetServ { sets: Vec::new(), cates: Vec::new(), items: Vec::new(), next_id: 1 }
    }

    pub open spec fn spec_has_set(self, id: u64) -> bool {
        exists|i: int| 0 <= i < self.sets_v().len() && (#[trigger] self.sets_v()[i]).id == id
    }

    pub open spec fn spec_set_idx(self, id: u64) -> int {
        choose|i: int| 0 <= i < self.sets_v().len() && (#[trigger] self.sets_v()[i]).id == id
    }

    /// The unique set record carrying `id`.
    pub open spec fn spec_set(self, id: u64) -> RbumSetV {
        self.sets_v()[self.spec_set_idx(id)]
    }

    pub open spec fn spec_has_cate(self, id: u64) -> bool {
        exists|i: int| 0 <= i < self.cates_v().len() && (#[trigger] self.cates_v()[i]).id == id
    }

    pub open spec fn spec_cate_idx(self, id: u64) -> int {
        choose|i: int| 0 <= i < self.cates_v().len() && (#[trigger] self.cates_v()[i]).id == id
    }

    /// The unique tree node carrying `id`.
    pub open spec fn spec_cate(self, id: u64) -> RbumSetCateV {
        self.cates_v()[self.spec_cate_idx(id)]
    }

    pub open spec fn spec_has_set_item(self, id: u64) -> bool {
        exists|i: int| 0 <= i < self.items_v().len() && (#[trigger] self.items_v()[i]).id == id
    }

    pub open spec fn spec_set_item_idx(self, id: u64) -> int {
        choose|i: int| 0 <= i < self.items_v().len() && (#[trigger] self.items_v()[i]).id == id
    }

    /// The unique attachment carrying `id`.
    pub open spec fn spec_set_item(self, id: u64) -> RbumSetItemV {
        self.items_v()[self.spec_set_item_idx(id)]
    }

    pub proof fn lemma_set_at(self, i: int)
        requires
            self.wf(),
            0 <= i < self.sets_v().len(),
        ensures
            self.spec_has_set(self.sets_v()[i].id),
            self.spec_set_idx(self.sets_v()[i].id) == i,
            self.spec_set(self.sets_v()[i].id) == self.sets_v()[i],
    {
        let id = self.sets_v()[i].id;
        assert(self.spec_has_set(id));
        let j = self.spec_set_idx(id);
        lemma_ids_index_unique(self.sets_v(), |r: RbumSetV| r.id, i, j);
    }

    pub proof fn lemma_cate_at(self, i: int)
        requires
            self.wf(),
            0 <= i < self.cates_v().len(),
        ensures
            self.spec_has_cate(self.cates_v()[i].id),
            self.spec_cate_idx(self.cates_v()[i].id) == i,
            self.spec_cate(self.cates_v()[i].id) == self.cates_v()[i],
    {
        let id = self.cates_v()[i].id;
        assert(self.spec_has_cate(id));
        let j = self.spec_cate_idx(id);
        lemma_ids_index_unique(self.cates_v(), |r: RbumSetCateV| r.id, i, j);
    }

    pub proof fn lemma_set_item_at(self, i: int)
        requires
            self.wf(),
            0 <= i < self.items_v().len(),
        ensures
            self.spec_has_set_item(self.items_v()[i].id),
            self.spec_set_item_idx(self.items_v()[i].id) == i,
            self.spec_set_item(self.items_v()[i].id) == self.items_v()[i],
    {
        let id = self.items_v()[i].id;
        assert(self.spec_has_set_item(id));
        let j = self.spec_set_item_idx(id);
        lemma_ids_index_unique(self.items_v(), |r: RbumSetItemV| r.id, i, j);
    }

    fn find_set_idx(&self, id: u64) -> (r: Option<usize>)
        ensures
            match r {
                Some(i) => i < self.sets_v().len() && self.sets_v()[i as int].id == id,
                None => !self.spec_has_set(id),
            },
    {
        let n = self.sets.len();
        let mut i: usize = 0;
        while i < n
            invariant
                n == self.sets@.len(),
                i <= n,
                forall|k: int| 0 <= k < i ==> (#[trigger] self.sets_v()[k]).id != id,
            decreases n - i,
        {
            if self.sets[i].id == id {
                return Some(i);
            }
            i += 1;
        }
        None
    }

    fn find_cate_idx(&self, id: u64) -> (r: Option<usize>)
        ensures
            match r {
                Some(i) => i < self.cates_v().len() && self.cates_v()[i as int].id == id,
                None => !self.spec_has_cate(id),
            },
    {
        let n = self.cates.len();
        let mut i: usize = 0;
        while i < n
            invariant
                n == self.cates@.len(),
                i <= n,
                forall|k: int| 0 <= k < i ==> (#[trigger] self.cates_v()[k]).id != id,
            decreases n - i,
        {
            if self.cates[i].id == id {
                return Some(i);
            }
            i += 1;
        }
        None
    }

    fn find_set_item_idx(&self, id: u64) -> (r: Option<usize>)
        ensures
            match r {
                Some(i) => i < self.items_v().len() && self.items_v()[i as int].id == id,
                None => !self.spec_has_set_item(id),
            },
    {
        let n = self.items.len();
        let mut i: usize = 0;
        while i < n
            invariant
                n == self.items@.len(),
                i <= n,
                forall|k: int| 0 <= k < i ==> (#[trigger] self.items_v()[k]).id != id,
            decreases n - i,
        {
            if self.items[i].id == id {
                return Some(i);
            }
            i += 1;
        }
        None
    }

    /// Is the set live and inside the caller's sight?
    pub open spec fn spec_set_visible(self, id: u64, ctx: RbumContextV) -> bool {
        &&& self.spec_has_set(id)
        &&& !self.spec_set(id).deleted
        &&& spec_visible(
            ctx.own_paths,
            self.spec_set(id).own_paths,
            self.spec_set(id).scope_level as nat,
            false,
        )
    }

    /// Is the tree node live and inside the caller's sight?
    pub open spec fn spec_cate_visible(self, id: u64, ctx: RbumContextV) -> bool {
        &&& self.spec_has_cate(id)
        &&& !self.spec_cate(id).deleted
        &&& spec_visible(
            ctx.own_paths,
            self.spec_cate(id).own_paths,
            self.spec_cate(id).scope_level as nat,
            false,
        )
    }

    /// A valid parent reference: absent, or a visible node of the same
    /// set.
    pub open spec fn spec_parent_ok(self, set_id: u64, parent: Option<u64>, ctx: RbumContextV) -> bool {
        match parent {
            None => true,
            Some(pid) => self.spec_cate_visible(pid, ctx) && self.spec_cate(pid).rel_set_id
                == set_id,
        }
    }

    /// The code prefix a new node allocates under: its parent's code, or
    /// nothing at the root level.
    pub open spec fn spec_alloc_prefix(self, parent: Option<u64>) -> Seq<u32> {
        match parent {
            None => Seq::<u32>::empty(),
            Some(pid) => self.spec_cate(pid).sys_code,
        }
    }

    /// The sibling space under `prefix` is used up: some sibling already
    /// carries the last code of the block.
    pub open spec fn spec_sibling_exhausted(self, set_id: u64, prefix: Seq<u32>) -> bool {
        exists|i: int|
            0 <= i < self.cates_v().len() && spec_is_sibling(
                #[trigger] self.cates_v()[i],
                set_id,
                prefix,
            ) && self.cates_v()[i].sys_code.last() == SYS_CODE_NODE_SPACE - 1
    }

    /// Largest last-block value among the child slots of `prefix`, if
    /// any exist.
    fn max_sibling_last(&self, set_id: u64, prefix: &SysCode) -> (r: Option<u32>)
        requires
            self.wf(),
        ensures
            match r {
                Some(m) => {
                    &&& exists|k: int|
                        0 <= k < self.cates_v().len() && spec_is_sibling(
                            #[trigger] self.cates_v()[k],
                            set_id,
                            prefix.nodes@,
                        ) && self.cates_v()[k].sys_code.last() == m
                    &&& forall|k: int|
                        0 <= k < self.cates_v().len() && spec_is_sibling(
                            #[trigger] self.cates_v()[k],
                            set_id,
                            prefix.nodes@,
                        ) ==> self.cates_v()[k].sys_code.last() <= m
                    &&& m < SYS_CODE_NODE_SPACE
                },
                None => forall|k: int|
                    0 <= k < self.cates_v().len() ==> !spec_is_sibling(
                        #[trigger] self.cates_v()[k],
                        set_id,
                        prefix.nodes@,
                    ),
            },
    {
        let n = self.cates.len();
        let mut best: Option<u32> = None;
        let mut i: usize = 0;
        while i < n
            invariant
                self.wf(),
                n == self.cates@.len(),
                i <= n,
                match best {
                    Some(m) => {
                        &&& exists|k: int|
                            0 <= k < i && spec_is_sibling(
                                #[trigger] self.cates_v()[k],
                                set_id,
                                prefix.nodes@,
                            ) && self.cates_v()[k].sys_code.last() == m
                        &&& forall|k: int|
                            0 <= k < i && spec_is_sibling(
                                #[trigger] self.cates_v()[k],
                                set_id,
                                prefix.nodes@,
                            ) ==> self.cates_v()[k].sys_code.last() <= m
                        &&& m < SYS_CODE_NODE_SPACE
                    },
                    None => forall|k: int|
                        0 <= k < i ==> !spec_is_sibling(
                            #[trigger] self.cates_v()[k],
                            set_id,
                            prefix.nodes@,
                        ),
                },
            decreases n - i,
        {
            let c = &self.cates[i];
            let clen = c.sys_code.nodes.len();
            let is_sib = c.rel_set_id == set_id && clen > 0 && clen - 1 == prefix.nodes.len()
                && prefix.is_prefix_of(&c.sys_code);
            proof {
                assert(is_sib == spec_is_sibling(self.cates_v()[i as int], set_id, prefix.nodes@));
            }
            if is_sib {
                let lastv = c.sys_code.nodes[clen - 1];
                proof {
                    assert(lastv == self.cates_v()[i as int].sys_code.last());
                    assert(spec_code_wf(self.cates_v()[i as int].sys_code));
                }
                best = match best {
                    Some(m) => if lastv > m {
                        Some(lastv)
                    } else {
                        Some(m)
                    },
                    None => Some(lastv),
                };
            }
            i += 1;
        }
        best
    }

    /// Creates a tree node under `rbum_parent_cate_id` (or at the root
    /// level) of set `set_id`.  The node's positional code extends its
    /// parent's by one block holding the next value after the largest
    /// existing sibling, so the code is unique in the set and carries the
    /// parent's code as a prefix.  `NotFound` when the set or parent does
    /// not resolve under the caller's sight; `Conflict` when the sibling
    /// block is exhausted.
    pub fn add_set_cate(
        &mut self,
        set_id: u64,
        rbum_parent_cate_id: Option<u64>,
        bus_code: String,
        name: String,
        ext: String,
        sort: u32,
        scope_level: u32,
        ctx: &RbumContext,
    ) -> (r: Result<u64, RbumError>)
        requires
            old(self).wf(),
            old(self).next_id < u64::MAX,
        ensures
            final(self).wf(),
            final(self).sets_v() == old(self).sets_v(),
            final(self).items_v() == old(self).items_v(),
            ({
                let okc = old(self).spec_set_visible(set_id, ctx@) && old(self).spec_parent_ok(
                    set_id,
                    rbum_parent_cate_id,
                    ctx@,
                );
                let prefix = old(self).spec_alloc_prefix(rbum_parent_cate_id);
                match r {
                    Ok(id) => {
                        &&& okc
                        &&& id == old(self).next_id
                        &&& final(self).next_id == old(self).next_id + 1
                        &&& final(self).cates_v() =~= old(self).cates_v().push(
                            final(self).cates_v().last(),
                        )
                        &&& ({
                            let nc = final(self).cates_v().last();
                            &&& nc.id == id
                            &&& nc.rel_set_id == set_id
                            &&& nc.bus_code == bus_code@
                            &&& nc.name == name@
                            &&& nc.ext == ext@
                            &&& nc.sort == sort
                            &&& nc.scope_level == scope_level
                            &&& nc.own_paths == ctx@.own_paths
                            &&& !nc.deleted
                            &&& nc.sys_code.len() == prefix.len() + 1
                            &&& spec_code_prefix(prefix, nc.sys_code)
                            &&& forall|k: int|
                                0 <= k < old(self).cates_v().len() && spec_is_sibling(
                                    #[trigger] old(self).cates_v()[k],
                                    set_id,
                                    prefix,
                                ) ==> old(self).cates_v()[k].sys_code.last()
                                    < nc.sys_code.last()
                            &&& (nc.sys_code.last() > 0 ==> exists|k: int|
                                0 <= k < old(self).cates_v().len() && spec_is_sibling(
                                    #[trigger] old(self).cates_v()[k],
                                    set_id,
                                    prefix,
                                ) && old(self).cates_v()[k].sys_code.last() == nc.sys_code.last()
                                    - 1)
                            &&& ((forall|k: int|
                                0 <= k < old(self).cates_v().len() ==> !spec_is_sibling(
                                    #[trigger] old(self).cates_v()[k],
                                    set_id,
                                    prefix,
                                )) ==> nc.sys_code.last() == 0)
                        })
                    },
                    Err(e) => {
                        &&& *final(self) == *old(self)
                        &&& (e == RbumError::NotFound || e == RbumError::Conflict)
                        &&& (e == RbumError::NotFound <==> !okc)
                        &&& (e == RbumError::Conflict <==> okc && old(self).spec_sibling_exhausted(
                            set_id,
                            prefix,
                        ))
                    },
                }
            }),
    {
        let si = match self.find_set_idx(set_id) {
            None => {
                return Err(RbumError::NotFound);
            },
            Some(i) => i,
        };
        proof {
            self.lemma_set_at(si as int);
        }
        if self.sets[si].deleted {
            return Err(RbumError::NotFound);
        }
        if !visible(ctx, &self.sets[si].own_paths, self.sets[si].scope_level, false) {
            return Err(RbumError::NotFound);
        }
        let prefix: SysCode = match rbum_parent_cate_id {
            None => SysCode { nodes: Vec::new() },
            Some(pid) => {
                let pi = match self.find_cate_idx(pid) {
                    None => {
                        return Err(RbumError::NotFound);
                    },
                    Some(pi) => pi,
                };
                proof {
                    self.lemma_cate_at(pi as int);
                }
                let pc = &self.cates[pi];
                if pc.deleted {
                    return Err(RbumError::NotFound);
                }
                if !visible(ctx, &pc.own_paths, pc.scope_level, false) {
                    return Err(RbumError::NotFound);
                }
                if pc.rel_set_id != set_id {
                    return Err(RbumError::NotFound);
                }
                pc.sys_code.clone_code()
            },
        };
        let new_last: u32 = match self.max_sibling_last(set_id, &prefix) {
            None => 0,
            Some(m) => {
                if m == SYS_CODE_NODE_SPACE - 1 {
                    return Err(RbumError::Conflict);
                }
                m + 1
            },
        };
        let mut code = prefix;
        code.nodes.push(new_last);
        let id = self.next_id;
        self.next_id = self.next_id + 1;
        let rec = RbumSetCate {
            id,
            rel_set_id: set_id,
            sys_code: code,
            bus_code,
            name,
            ext,
            sort,
            scope_level,
            own_paths: clone_path(&ctx.own_paths),
            deleted: false,
        };
        let ghost pre = *self;
        let ghost pfx = old(self).spec_alloc_prefix(rbum_parent_cate_id);
        proof {
            assert(rec@.sys_code =~= pfx.push(new_last));
            assert(rec@.sys_code.subrange(0, pfx.len() as int) =~= pfx);
            lemma_map_push(self.cates@, |c: RbumSetCate| c@, rec);
            lemma_ids_push(self.cates_v(), |c: RbumSetCateV| c.id, id, rec@, self.next_id);
        }
        self.cates.push(rec);
        proof {
            let t = self.cates_v();
            let ni = t.len() - 1;
            assert(t[ni] == rec@);
            assert forall|p: int, q: int|
                0 <= p < q < t.len() && t[p].rel_set_id == t[q].rel_set_id && t[p].sys_code
                    == t[q].sys_code implies false by {
                if q < ni {
                    assert(pre.cates_v()[p].sys_code == pre.cates_v()[q].sys_code);
                } else {
                    assert(t[p] == pre.cates_v()[p]);
                    if t[p].rel_set_id == set_id && t[p].sys_code == rec@.sys_code {
                        assert(t[p].sys_code.len() == pfx.len() + 1);
                        assert(t[p].sys_code.subrange(0, pfx.len() as int) =~= rec@
                            .sys_code.subrange(0, pfx.len() as int));
                        assert(spec_is_sibling(pre.cates_v()[p], set_id, pfx));
                        assert(t[p].sys_code.last() == rec@.sys_code.last());
                    }
                }
            }
            assert forall|k: int|
                0 <= k < self.items_v().len() && !(#[trigger] self.items_v()[k]).deleted implies self.spec_cate_live(
                self.items_v()[k].rel_cate_id,
            ) by {
                assert(pre.spec_cate_live(pre.items_v()[k].rel_cate_id));
                let w = choose|j: int|
                    0 <= j < pre.cates_v().len() && (#[trigger] pre.cates_v()[j]).id
                        == pre.items_v()[k].rel_cate_id && !pre.cates_v()[j].deleted;
                assert(self.cates_v()[w].id == self.items_v()[k].rel_cate_id && !self.cates_v()[
                    w
                ].deleted);
            }
        }
        Ok(id)
    }

    /// Tree-node uniqueness and liveness invariants survive replacing
    /// one node without touching its identity, code, set or liveness.
    proof fn lemma_cate_update_wf(pre: IamSetServ, post: IamSetServ, i: int)
        requires
            pre.wf(),
            0 <= i < pre.cates_v().len(),
            post.sets_v() == pre.sets_v(),
            post.items_v() == pre.items_v(),
            post.next_id == pre.next_id,
            post.cates_v().len() == pre.cates_v().len(),
            forall|k: int|
                0 <= k < pre.cates_v().len() && k != i ==> post.cates_v()[k] == pre.cates_v()[k],
            post.cates_v()[i].id == pre.cates_v()[i].id,
            post.cates_v()[i].rel_set_id == pre.cates_v()[i].rel_set_id,
            post.cates_v()[i].sys_code == pre.cates_v()[i].sys_code,
            post.cates_v()[i].deleted == pre.cates_v()[i].deleted,
            spec_ids_unique(post.cates_v(), |r: RbumSetCateV| r.id),
            spec_ids_below(post.cates_v(), |r: RbumSetCateV| r.id, post.next_id),
        ensures
            post.wf(),
    {
        assert forall|p: int, q: int|
            0 <= p < q < post.cates_v().len() && post.cates_v()[p].rel_set_id == post.cates_v()[
            q
        ].rel_set_id && post.cates_v()[p].sys_code == post.cates_v()[
            q
        ].sys_code implies false by {
            assert(pre.cates_v()[p].rel_set_id == pre.cates_v()[q].rel_set_id);
            assert(pre.cates_v()[p].sys_code == pre.cates_v()[q].sys_code);
        }
        assert forall|k: int|
            0 <= k < post.cates_v().len() implies spec_code_wf(
            (#[trigger] post.cates_v()[k]).sys_code,
        ) && post.cates_v()[k].sys_code.len() >= 1 && post.cates_v()[k].rel_set_id
            < post.next_id by {
            assert(spec_code_wf(pre.cates_v()[k].sys_code) && pre.cates_v()[k].sys_code.len() >= 1
                && pre.cates_v()[k].rel_set_id < pre.next_id);
        }
        assert forall|k: int|
            0 <= k < post.items_v().len() && !(#[trigger] post.items_v()[k]).deleted implies post.spec_cate_live(
            post.items_v()[k].rel_cate_id,
        ) by {
            assert(pre.spec_cate_live(pre.items_v()[k].rel_cate_id));
            let w = choose|j: int|
                0 <= j < pre.cates_v().len() && (#[trigger] pre.cates_v()[j]).id == pre.items_v()[
                    k
                ].rel_cate_id && !pre.cates_v()[j].deleted;
            assert(post.cates_v()[w].id == post.items_v()[k].rel_cate_id && !post.cates_v()[
                w
            ].deleted);
        }
    }

    /// Renames or retunes a tree node; its code and position never
    /// change.
    pub fn modify_set_cate(
        &mut self,
        set_cate_id: u64,
        name: Option<String>,
        bus_code: Option<String>,
        ext: Option<String>,
        sort: Option<u32>,
        scope_level: Option<u32>,
        ctx: &RbumContext,
    ) -> (r: Result<(), RbumError>)
        requires
            old(self).wf(),
        ensures
            final(self).wf(),
            final(self).sets_v() == old(self).sets_v(),
            final(self).items_v() == old(self).items_v(),
            final(self).next_id == old(self).next_id,
            match r {
                Ok(_) => {
                    &&& old(self).spec_cate_visible(set_cate_id, ctx@)
                    &&& spec_scope_admin(ctx@.own_paths, old(self).spec_cate(set_cate_id).own_paths)
                    &&& final(self).cates_v() =~= old(self).cates_v().update(
                        old(self).spec_cate_idx(set_cate_id),
                        ({
                            let c = old(self).spec_cate(set_cate_id);
                            RbumSetCateV {
                                name: if name is Some {
                                    name->0@
                                } else {
                                    c.name
                                },
                                bus_code: if bus_code is Some {
                                    bus_code->0@
                                } else {
                                    c.bus_code
                                },
                                ext: if ext is Some {
                                    ext->0@
                                } else {
                                    c.ext
                                },
                                sort: if sort is Some {
                                    sort->0
                                } else {
                                    c.sort
                                },
                                scope_level: if scope_level is Some {
                                    scope_level->0
                                } else {
                                    c.scope_level
                                },
                                ..c
                            }
                        }),
                    )
                },
                Err(e) => {
                    &&& (e == RbumError::NotFound || e == RbumError::Forbidden)
                    &&& *final(self) == *old(self)
                    &&& (e == RbumError::NotFound <==> !old(self).spec_cate_visible(
                        set_cate_id,
                        ctx@,
                    ))
                    &&& (e == RbumError::Forbidden <==> old(self).spec_cate_visible(
                        set_cate_id,
                        ctx@,
                    ) && !spec_scope_admin(
                        ctx@.own_paths,
                        old(self).spec_cate(set_cate_id).own_paths,
                    ))
                },
            },
    {
        let i = match self.find_cate_idx(set_cate_id) {
            None => {
                return Err(RbumError::NotFound);
            },
            Some(i) => i,
        };
        proof {
            self.lemma_cate_at(i as int);
        }
        let c = &self.cates[i];
        if c.deleted {
            return Err(RbumError::NotFound);
        }
        if !visible(ctx, &c.own_paths, c.scope_level, false) {
            return Err(RbumError::NotFound);
        }
        if !is_scope_admin(ctx, &c.own_paths) {
            return Err(RbumError::Forbidden);
        }
        let updated = RbumSetCate {
            id: c.id,
            rel_set_id: c.rel_set_id,
            sys_code: c.sys_code.clone_code(),
            bus_code: match bus_code {
                Some(b) => b,
                None => c.bus_code.clone(),
            },
            name: match name {
                Some(nm) => nm,
                None => c.name.clone(),
            },
            ext: match ext {
                Some(e) => e,
                None => c.ext.clone(),
            },
            sort: match sort {
                Some(s) => s,
                None => c.sort,
            },
            scope_level: match scope_level {
                Some(l) => l,
                None => c.scope_level,
            },
            own_paths: clone_path(&c.own_paths),
            deleted: c.deleted,
        };
        let ghost pre = *self;
        proof {
            lemma_map_update(self.cates@, |c: RbumSetCate| c@, i as int, updated);
            lemma_ids_update(
                self.cates_v(),
                |c: RbumSetCateV| c.id,
                self.next_id,
                i as int,
                updated@,
            );
        }
        self.cates.set(i, updated);
        proof {
            Self::lemma_cate_update_wf(pre, *self, i as int);
            assert(self.cates_v()[i as int] =~= ({
                let c = pre.spec_cate(set_cate_id);
                RbumSetCateV {
                    name: if name is Some {
                        name->0@
                    } else {
                        c.name
                    },
                    bus_code: if bus_code is Some {
                        bus_code->0@
                    } else {
                        c.bus_code
                    },
                    ext: if ext is Some {
                        ext->0@
                    } else {
                        c.ext
                    },
                    sort: if sort is Some {
                        sort->0
                    } else {
                        c.sort
                    },
                    scope_level: if scope_level is Some {
                        scope_level->0
                    } else {
                        c.scope_level
                    },
                    ..c
                }
            }));
        }
        Ok(())
    }

    /// Is any live node a child of the node carrying this code in this
    /// set?
    pub open spec fn spec_cate_has_children(self, set_id: u64, code: Seq<u32>) -> bool {
        exists|i: int|
            0 <= i < self.cates_v().len() && !(#[trigger] self.cates_v()[i]).deleted
                && self.cates_v()[i].rel_set_id == set_id && self.cates_v()[i].sys_code.len()
                > code.len() && spec_code_prefix(code, self.cates_v()[i].sys_code)
    }

    /// Is any live attachment still hanging off the node?
    pub open spec fn spec_cate_in_use(self, id: u64) -> bool {
        exists|i: int|
            0 <= i < self.items_v().len() && !(#[trigger] self.items_v()[i]).deleted
                && self.items_v()[i].rel_cate_id == id
    }

    /// Soft-deletes a tree node.  Refused with `Conflict` while live
    /// child nodes or live attachments remain under it.
    pub fn delete_set_cate(&mut self, set_cate_id: u64, ctx: &RbumContext) -> (r: Result<
        u64,
        RbumError,
    >)
        requires
            old(self).wf(),
        ensures
            final(self).wf(),
            final(self).sets_v() == old(self).sets_v(),
            final(self).items_v() == old(self).items_v(),
            final(self).next_id == old(self).next_id,
            ({
                let c = old(self).spec_cate(set_cate_id);
                let blocked = old(self).spec_cate_has_children(c.rel_set_id, c.sys_code) || old(
                    self,
                ).spec_cate_in_use(set_cate_id);
                match r {
                    Ok(n) => {
                        &&& n == 1
                        &&& old(self).spec_cate_visible(set_cate_id, ctx@)
                        &&& spec_scope_admin(ctx@.own_paths, c.own_paths)
                        &&& !blocked
                        &&& final(self).cates_v() =~= old(self).cates_v().update(
                            old(self).spec_cate_idx(set_cate_id),
                            (RbumSetCateV { deleted: true, ..c }),
                        )
                    },
                    Err(e) => {
                        &&& (e == RbumError::NotFound || e == RbumError::Forbidden || e == RbumError::Conflict)
                        &&& *final(self) == *old(self)
                        &&& (e == RbumError::NotFound <==> !old(self).spec_cate_visible(
                            set_cate_id,
                            ctx@,
                        ))
                        &&& (e == RbumError::Forbidden <==> old(self).spec_cate_visible(
                            set_cate_id,
                            ctx@,
                        ) && !spec_scope_admin(ctx@.own_paths, c.own_paths))
                        &&& (e == RbumError::Conflict <==> old(self).spec_cate_visible(
                            set_cate_id,
                            ctx@,
                        ) && spec_scope_admin(ctx@.own_paths, c.own_paths) && blocked)
                    },
                }
            }),
    {
        let i = match self.find_cate_idx(set_cate_id) {
            None => {
                return Err(RbumError::NotFound);
            },
            Some(i) => i,
        };
        proof {
            self.lemma_cate_at(i as int);
        }
        if self.cates[i].deleted {
            return Err(RbumError::NotFound);
        }
        if !visible(ctx, &self.cates[i].own_paths, self.cates[i].scope_level, false) {
            return Err(RbumError::NotFound);
        }
        if !is_scope_admin(ctx, &self.cates[i].own_paths) {
            return Err(RbumError::Forbidden);
        }
        let set_id = self.cates[i].rel_set_id;
        let code = self.cates[i].sys_code.clone_code();
        if self.has_live_child(set_id, &code) {
            return Err(RbumError::Conflict);
        }
        if self.cate_in_use(set_cate_id) {
            return Err(RbumError::Conflict);
        }
        let mut updated = self.cates[i].duplicate();
        updated.deleted = true;
        let ghost pre = *self;
        proof {
            assert(updated@ =~= (RbumSetCateV { deleted: true, ..pre.spec_cate(set_cate_id) }));
            lemma_map_update(self.cates@, |c: RbumSetCate| c@, i as int, updated);
            lemma_ids_update(
                self.cates_v(),
                |c: RbumSetCateV| c.id,
                self.next_id,
                i as int,
                updated@,
            );
        }
        self.cates.set(i, updated);
        proof {
            assert forall|p: int, q: int|
                0 <= p < q < self.cates_v().len() && self.cates_v()[p].rel_set_id
                    == self.cates_v()[q].rel_set_id && self.cates_v()[p].sys_code
                    == self.cates_v()[q].sys_code implies false by {
                assert(pre.cates_v()[p].rel_set_id == pre.cates_v()[q].rel_set_id);
                assert(pre.cates_v()[p].sys_code == pre.cates_v()[q].sys_code);
            }
            assert forall|k: int|
                0 <= k < self.cates_v().len() implies spec_code_wf(
                (#[trigger] self.cates_v()[k]).sys_code,
            ) && self.cates_v()[k].sys_code.len() >= 1 && self.cates_v()[k].rel_set_id
                < self.next_id by {
                assert(spec_code_wf(pre.cates_v()[k].sys_code) && pre.cates_v()[k].sys_code.len()
                    >= 1 && pre.cates_v()[k].rel_set_id < pre.next_id);
            }
            assert forall|k: int|
                0 <= k < self.items_v().len() && !(#[trigger] self.items_v()[k]).deleted implies self.spec_cate_live(
                self.items_v()[k].rel_cate_id,
            ) by {
                assert(pre.spec_cate_live(pre.items_v()[k].rel_cate_id));
                let w = choose|j: int|
                    0 <= j < pre.cates_v().len() && (#[trigger] pre.cates_v()[j]).id
                        == pre.items_v()[k].rel_cate_id && !pre.cates_v()[j].deleted;
                if w == i {
                    assert(pre.items_v()[k].rel_cate_id == set_cate_id);
                    assert(pre.spec_cate_in_use(set_cate_id));
                } else {
                    assert(self.cates_v()[w].id == self.items_v()[k].rel_cate_id
                        && !self.cates_v()[w].deleted);
                }
            }
        }
        Ok(1)
    }

    fn has_live_child(&self, set_id: u64, code: &SysCode) -> (r: bool)
        ensures
            r == self.spec_cate_has_children(set_id, code.nodes@),
    {
        let n = self.cates.len();
        let mut i: usize = 0;
        while i < n
            invariant
                n == self.cates@.len(),
                i <= n,
                forall|k: int|
                    0 <= k < i ==> !(!(#[trigger] self.cates_v()[k]).deleted && self.cates_v()[
                        k
                    ].rel_set_id == set_id && self.cates_v()[k].sys_code.len() > code.nodes@.len()
                        && spec_code_prefix(code.nodes@, self.cates_v()[k].sys_code)),
            decreases n - i,
        {
            let c = &self.cates[i];
            if !c.deleted && c.rel_set_id == set_id && c.sys_code.nodes.len() > code.nodes.len()
                && code.is_prefix_of(&c.sys_code) {
                proof {
                    assert(!(#[trigger] self.cates_v()[i as int]).deleted && self.cates_v()[
                        i as int
                    ].rel_set_id == set_id && self.cates_v()[i as int].sys_code.len()
                        > code.nodes@.len() && spec_code_prefix(
                        code.nodes@,
                        self.cates_v()[i as int].sys_code,
                    ));
                }
                return true;
            }
            i += 1;
        }
        false
    }

    /// Is any live set already using the code?
    pub open spec fn spec_set_code_taken(self, code: Seq<char>) -> bool {
        exists|i: int|
            0 <= i < self.sets_v().len() && !(#[trigger] self.sets_v()[i]).deleted
                && self.sets_v()[i].code == code
    }

    pub open spec fn spec_set_by_code_idx(self, code: Seq<char>) -> int {
        choose|i: int|
            0 <= i < self.sets_v().len() && !(#[trigger] self.sets_v()[i]).deleted
                && self.sets_v()[i].code == code
    }

    /// The unique live set carrying the code.
    pub open spec fn spec_set_by_code(self, code: Seq<char>) -> RbumSetV {
        self.sets_v()[self.spec_set_by_code_idx(code)]
    }

    proof fn lemma_set_code_at(self, i: int)
        requires
            self.wf(),
            0 <= i < self.sets_v().len(),
            !self.sets_v()[i].deleted,
        ensures
            self.spec_set_code_taken(self.sets_v()[i].code),
            self.spec_set_by_code_idx(self.sets_v()[i].code) == i,
            self.spec_set_by_code(self.sets_v()[i].code) == self.sets_v()[i],
    {
        let code = self.sets_v()[i].code;
        assert(self.spec_set_code_taken(code));
        let j = self.spec_set_by_code_idx(code);
        if i < j {
            assert(!(!self.sets_v()[i].deleted && !self.sets_v()[j].deleted && self.sets_v()[
            i
            ].code == self.sets_v()[j].code));
        } else if j < i {
            assert(!(!self.sets_v()[j].deleted && !self.sets_v()[i].deleted && self.sets_v()[
            j
            ].code == self.sets_v()[i].code));
        }
    }

    fn find_live_set_by_code(&self, code: &String) -> (r: Option<usize>)
        ensures
            match r {
                Some(i) => {
                    &&& i < self.sets_v().len()
                    &&& !self.sets_v()[i as int].deleted
                    &&& self.sets_v()[i as int].code == code@
                },
                None => !self.spec_set_code_taken(code@),
            },
    {
        let n = self.sets.len();
        let mut i: usize = 0;
        while i < n
            invariant
                n == self.sets@.len(),
                i <= n,
                forall|k: int|
                    0 <= k < i ==> !(!(#[trigger] self.sets_v()[k]).deleted && self.sets_v()[
                        k
                    ].code == code@),
            decreases n - i,
        {
            let s = &self.sets[i];
            if !s.deleted && s.code == *code {
                proof {
                    assert(!(#[trigger] self.sets_v()[i as int]).deleted && self.sets_v()[
                        i as int
                    ].code == code@);
                }
                return Some(i);
            }
            i += 1;
        }
        None
    }

    /// The default code of a set of this kind under this ownership path.
    pub fn get_default_code(kind: &IamSetKind, own_paths: &str) -> (r: String)
        ensures
            r@ =~= spec_default_code(*kind, own_paths@),
    {
        let mut out = String::new();
        out.append(own_paths);
        out.append(":");
        out.append(kind.code());
        proof {
            reveal_strlit(":");
            assert(":"@ =~= seq![':']);
            assert(out@ =~= spec_default_code(*kind, own_paths@));
        }
        out
    }

    /// The default organizational-tree code at the system level, where
    /// the ownership path is empty.
    pub fn get_default_org_code_by_system() -> (r: String)
        ensures
            r@ =~= spec_default_code(IamSetKind::Org, Seq::<char>::empty()),
    {
        let r = Self::get_default_code(&IamSetKind::Org, "");
        proof {
            reveal_strlit("");
            assert(""@ =~= Seq::<char>::empty());
        }
        r
    }

    /// The default organizational-tree code of the caller's tenant: the
    /// first segment of the caller's ownership path.  `NotFound` when
    /// the caller is not under a tenant.
    pub fn get_default_org_code_by_tenant(ctx: &RbumContext) -> (r: Result<String, RbumError>)
        ensures
            match r {
                Ok(code) => ctx@.own_paths.len() >= 1 && code@ =~= spec_default_code(
                    IamSetKind::Org,
                    spec_path_chars(ctx@.own_paths.subrange(0, 1)),
                ),
                Err(e) => e == RbumError::NotFound && ctx@.own_paths.len() < 1,
            },
    {
        if ctx.own_paths.len() < 1 {
            return Err(RbumError::NotFound);
        }
        let seg = u64_dec_string(ctx.own_paths[0]);
        proof {
            assert(ctx@.own_paths.subrange(0, 1).len() == 1);
            assert(ctx@.own_paths.subrange(0, 1)[0] == ctx@.own_paths[0]);
            assert(spec_path_chars(ctx@.own_paths.subrange(0, 1)) =~= spec_dec_chars(
                ctx@.own_paths[0],
            ));
        }
        Ok(Self::get_default_code(&IamSetKind::Org, seg.as_str()))
    }

    /// The default organizational-tree code of the caller's application:
    /// the first two segments of the caller's ownership path.  `NotFound`
    /// when the caller is not under an application.
    pub fn get_default_org_code_by_app(ctx: &RbumContext) -> (r: Result<String, RbumError>)
        ensures
            match r {
                Ok(code) => ctx@.own_paths.len() >= 2 && code@ =~= spec_default_code(
                    IamSetKind::Org,
                    spec_path_chars(ctx@.own_paths.subrange(0, 2)),
                ),
                Err(e) => e == RbumError::NotFound && ctx@.own_paths.len() < 2,
            },
    {
        if ctx.own_paths.len() < 2 {
            return Err(RbumError::NotFound);
        }
        let mut two: Vec<u64> = Vec::new();
        two.push(ctx.own_paths[0]);
        two.push(ctx.own_paths[1]);
        proof {
            assert(two@ =~= ctx@.own_paths.subrange(0, 2));
        }
        let path = path_string(&two);
        Ok(Self::get_default_code(&IamSetKind::Org, path.as_str()))
    }

    /// Resolves the live set carrying `code` under the caller's sight.
    pub fn get_set_id_by_code(&self, code: &String, ctx: &RbumContext) -> (r: Result<
        u64,
        RbumError,
    >)
        requires
            self.wf(),
        ensures
            match r {
                Ok(id) => {
                    &&& self.spec_set_code_taken(code@)
                    &&& id == self.spec_set_by_code(code@).id
                    &&& spec_visible(
                        ctx@.own_paths,
                        self.spec_set_by_code(code@).own_paths,
                        self.spec_set_by_code(code@).scope_level as nat,
                        false,
                    )
                },
                Err(e) => {
                    &&& e == RbumError::NotFound
                    &&& !(self.spec_set_code_taken(code@) && spec_visible(
                        ctx@.own_paths,
                        self.spec_set_by_code(code@).own_paths,
                        self.spec_set_by_code(code@).scope_level as nat,
                        false,
                    ))
                },
            },
    {
        match self.find_live_set_by_code(code) {
            None => Err(RbumError::NotFound),
            Some(i) => {
                proof {
                    self.lemma_set_code_at(i as int);
                }
                let s = &self.sets[i];
                if !visible(ctx, &s.own_paths, s.scope_level, false) {
                    return Err(RbumError::NotFound);
                }
                Ok(s.id)
            },
        }
    }

    /// Resolves the caller's default set of the given kind: the set whose
    /// code is the default code under the caller's own path.
    pub fn get_default_set_id_by_ctx(&self, kind: &IamSetKind, ctx: &RbumContext) -> (r: Result<
        u64,
        RbumError,
    >)
        requires
            self.wf(),
        ensures
            ({
                let code = spec_default_code(*kind, spec_path_chars(ctx@.own_paths));
                match r {
                    Ok(id) => {
                        &&& self.spec_set_code_taken(code)
                        &&& id == self.spec_set_by_code(code).id
                        &&& spec_visible(
                            ctx@.own_paths,
                            self.spec_set_by_code(code).own_paths,
                            self.spec_set_by_code(code).scope_level as nat,
                            false,
                        )
                    },
                    Err(e) => {
                        &&& e == RbumError::NotFound
                        &&& !(self.spec_set_code_taken(code) && spec_visible(
                            ctx@.own_paths,
                            self.spec_set_by_code(code).own_paths,
                            self.spec_set_by_code(code).scope_level as nat,
                            false,
                        ))
                    },
                }
            }),
    {
        let path = path_string(&ctx.own_paths);
        let code = Self::get_default_code(kind, path.as_str());
        self.get_set_id_by_code(&code, ctx)
    }

    /// Creates the default set of a kind under the caller's scope, with
    /// the two reserved root nodes — the menu tree under the zero code
    /// and the API tree under its next sibling — when the set is the
    /// resource tree.  `Conflict` when a live set already carries the
    /// default code.
    pub fn init_set(&mut self, set_kind: IamSetKind, scope_level: u32, ctx: &RbumContext) -> (r:
        Result<(u64, Option<(u64, u64)>), RbumError>)
        requires
            old(self).wf(),
            old(self).next_id + 3 < u64::MAX,
        ensures
            final(self).wf(),
            final(self).items_v() == old(self).items_v(),
            ({
                let code = spec_default_code(set_kind, spec_path_chars(ctx@.own_paths));
                match r {
                    Ok((sid, cates)) => {
                        &&& !old(self).spec_set_code_taken(code)
                        &&& sid == old(self).next_id
                        &&& final(self).sets_v() =~= old(self).sets_v().push(
                            (RbumSetV {
                                id: sid,
                                code: code,
                                kind: set_kind,
                                name: code,
                                scope_level: scope_level,
                                own_paths: ctx@.own_paths,
                                deleted: false,
                            }),
                        )
                        &&& match cates {
                            None => set_kind != IamSetKind::Res && final(self).cates_v() == old(
                                self,
                            ).cates_v(),
                            Some((m, a)) => {
                                &&& set_kind == IamSetKind::Res
                                &&& final(self).cates_v().len() == old(self).cates_v().len() + 2
                                &&& final(self).spec_has_cate(m)
                                &&& final(self).spec_cate(m).rel_set_id == sid
                                &&& final(self).spec_cate(m).sys_code =~= seq![0u32]
                                &&& final(self).spec_cate(m).name == "Menus"@
                                &&& final(self).spec_cate(m).bus_code == "__menus__"@
                                &&& final(self).spec_cate(m).ext == "Root"@
                                &&& final(self).spec_cate(m).scope_level == scope_level
                                &&& !final(self).spec_cate(m).deleted
                                &&& final(self).spec_has_cate(a)
                                &&& final(self).spec_cate(a).rel_set_id == sid
                                &&& final(self).spec_cate(a).sys_code =~= seq![1u32]
                                &&& final(self).spec_cate(a).name == "Apis"@
                                &&& final(self).spec_cate(a).bus_code == "__apis__"@
                                &&& final(self).spec_cate(a).ext == ""@
                                &&& final(self).spec_cate(a).scope_level == scope_level
                                &&& !final(self).spec_cate(a).deleted
                            },
                        }
                    },
                    Err(e) => {
                        &&& *final(self) == *old(self)
                        &&& e == RbumError::Conflict
                        &&& old(self).spec_set_code_taken(code)
                    },
                }
            }),
    {
        let path = path_string(&ctx.own_paths);
        let code = Self::get_default_code(&set_kind, path.as_str());
        if self.find_live_set_by_code(&code).is_some() {
            return Err(RbumError::Conflict);
        }
        let sid = self.next_id;
        self.next_id = self.next_id + 1;
        let name = code.clone();
        let rec = RbumSet {
            id: sid,
            code,
            kind: set_kind,
            name,
            scope_level,
            own_paths: clone_path(&ctx.own_paths),
            deleted: false,
        };
        let ghost pre = *self;
        proof {
            lemma_map_push(self.sets@, |s: RbumSet| s@, rec);
            lemma_ids_push(self.sets_v(), |s: RbumSetV| s.id, sid, rec@, self.next_id);
            let t = self.sets_v().push(rec@);
            assert forall|p: int, q: int|
                0 <= p < q < t.len() && !t[p].deleted && !t[q].deleted && t[p].code
                    == t[q].code implies false by {
                if q < pre.sets_v().len() {
                    assert(!(!pre.sets_v()[p].deleted && !pre.sets_v()[q].deleted && pre.sets_v()[
                    p
                    ].code == pre.sets_v()[q].code));
                } else {
                    assert(pre.spec_set_code_taken(t[p].code));
                }
            }
        }
        self.sets.push(rec);
        let ghost mid = *self;
        proof {
            crate::scope::lemma_visible_reflexive(ctx.own_paths@, scope_level as nat, false);
            let n = mid.sets_v().len() - 1;
            mid.lemma_set_at(n);
            assert(mid.spec_set_visible(sid, ctx@));
        }
        if !matches!(set_kind, IamSetKind::Res) {
            return Ok((sid, None));
        }
        proof {
            assert forall|k: int|
                0 <= k < mid.cates_v().len() implies !spec_is_sibling(
                #[trigger] mid.cates_v()[k],
                sid,
                Seq::<u32>::empty(),
            ) by {
                assert(mid.cates_v()[k].rel_set_id < pre.next_id);
            }
        }
        let menu_name = String::from_str("Menus");
        let menu_bus = String::from_str("__menus__");
        let menu_ext = String::from_str("Root");
        let m = match self.add_set_cate(
            sid,
            None,
            menu_bus,
            menu_name,
            menu_ext,
            0,
            scope_level,
            ctx,
        ) {
            Ok(m) => m,
            Err(_) => {
                proof {
                    assert(false);
                }
                return Err(RbumError::Conflict);
            },
        };
        let ghost mid2 = *self;
        proof {
            let mi = mid2.cates_v().len() - 1;
            mid2.lemma_cate_at(mi);
            assert(mid2.spec_cate(m) == mid2.cates_v()[mi]);
            assert(mid2.cates_v()[mi].sys_code =~= seq![0u32]);
            assert forall|k: int|
                0 <= k < mid2.cates_v().len() && spec_is_sibling(
                    #[trigger] mid2.cates_v()[k],
                    sid,
                    Seq::<u32>::empty(),
                ) implies k == mi by {
                if k < mi {
                    assert(mid2.cates_v()[k] == mid.cates_v()[k]);
                    assert(mid.cates_v()[k].rel_set_id < pre.next_id);
                }
            }
            assert(mid2.spec_set_visible(sid, ctx@)) by {
                assert(mid2.sets_v() == mid.sets_v());
                assert(mid.spec_set_visible(sid, ctx@));
            }
        }
        let api_name = String::from_str("Apis");
        let api_bus = String::from_str("__apis__");
        let api_ext = String::new();
        let a = match self.add_set_cate(
            sid,
            None,
            api_bus,
            api_name,
            api_ext,
            0,
            scope_level,
            ctx,
        ) {
            Ok(a) => a,
            Err(_) => {
                proof {
                    assert(!mid2.spec_sibling_exhausted(sid, Seq::<u32>::empty())) by {
                        let mi = mid2.cates_v().len() - 1;
                        assert forall|k: int|
                            0 <= k < mid2.cates_v().len() && spec_is_sibling(
                                #[trigger] mid2.cates_v()[k],
                                sid,
                                Seq::<u32>::empty(),
                            ) implies mid2.cates_v()[k].sys_code.last() != SYS_CODE_NODE_SPACE
                            - 1 by {
                            if k < mi {
                                assert(mid2.cates_v()[k] == mid.cates_v()[k]);
                                assert(mid.cates_v()[k].rel_set_id < pre.next_id);
                            } else {
                                assert(mid2.cates_v()[mi].sys_code =~= seq![0u32]);
                            }
                        }
                    }
                    assert(false);
                }
                return Err(RbumError::Conflict);
            },
        };
        proof {
            let ai = self.cates_v().len() - 1;
            self.lemma_cate_at(ai);
            let mi = mid2.cates_v().len() - 1;
            assert(self.spec_cate(a) == self.cates_v()[ai]);
            let nc = self.cates_v()[ai];
            assert(nc.sys_code.len() == 1);
            assert(spec_is_sibling(mid2.cates_v()[mi], sid, Seq::<u32>::empty()));
            assert(mid2.cates_v()[mi].sys_code.last() < nc.sys_code.last());
            assert(nc.sys_code.last() > 0);
            let w = choose|k: int|
                0 <= k < mid2.cates_v().len() && spec_is_sibling(
                    #[trigger] mid2.cates_v()[k],
                    sid,
                    Seq::<u32>::empty(),
                ) && mid2.cates_v()[k].sys_code.last() == nc.sys_code.last() - 1;
            assert(w == mi);
            assert(nc.sys_code.last() == 1);
            assert(nc.sys_code =~= seq![1u32]);
            assert(self.spec_cate(m) == mid2.cates_v()[mi]) by {
                assert(self.cates_v()[mi] == mid2.cates_v()[mi]);
                self.lemma_cate_at(mi);
            }
            reveal_strlit("");
            assert(""@ =~= Seq::<char>::empty());
        }
        Ok((sid, Some((m, a))))
    }

    /// Is the attachment live and inside the caller's sight?
    pub open spec fn spec_set_item_visible(self, id: u64, ctx: RbumContextV, with_sub: bool) -> bool {
        &&& self.spec_has_set_item(id)
        &&& !self.spec_set_item(id).deleted
        &&& spec_visible(ctx.own_paths, self.spec_set_item(id).own_paths, 0, with_sub)
    }

    /// Is a live attachment of this item to this node present?
    pub open spec fn spec_attached(self, cate_id: u64, item_id: u64) -> bool {
        exists|i: int|
            0 <= i < self.items_v().len() && !(#[trigger] self.items_v()[i]).deleted
                && self.items_v()[i].rel_cate_id == cate_id && self.items_v()[i].rel_item_id
                == item_id
    }

    fn find_attachment(&self, cate_id: u64, item_id: u64) -> (r: Option<usize>)
        ensures
            match r {
                Some(i) => {
                    &&& i < self.items_v().len()
                    &&& !self.items_v()[i as int].deleted
                    &&& self.items_v()[i as int].rel_cate_id == cate_id
                    &&& self.items_v()[i as int].rel_item_id == item_id
                },
                None => !self.spec_attached(cate_id, item_id),
            },
    {
        let n = self.items.len();
        let mut i: usize = 0;
        while i < n
            invariant
                n == self.items@.len(),
                i <= n,
                forall|k: int|
                    0 <= k < i ==> !(!(#[trigger] self.items_v()[k]).deleted && self.items_v()[
                        k
                    ].rel_cate_id == cate_id && self.items_v()[k].rel_item_id == item_id),
            decreases n - i,
        {
            let it = &self.items[i];
            if !it.deleted && it.rel_cate_id == cate_id && it.rel_item_id == item_id {
                proof {
                    assert(!(#[trigger] self.items_v()[i as int]).deleted && self.items_v()[
                        i as int
                    ].rel_cate_id == cate_id && self.items_v()[i as int].rel_item_id == item_id);
                }
                return Some(i);
            }
            i += 1;
        }
        None
    }

    /// Attaches a resource item to a tree node with a sort key.
    /// `NotFound` when the set or node does not resolve under the
    /// caller's sight or the node belongs to another set; `Conflict` when
    /// the item is already attached to that node.
    pub fn add_set_item(
        &mut self,
        set_id: u64,
        set_cate_id: u64,
        rel_rbum_item_id: u64,
        sort: u32,
        ctx: &RbumContext,
    ) -> (r: Result<u64, RbumError>)
        requires
            old(self).wf(),
            old(self).next_id < u64::MAX,
        ensures
            final(self).wf(),
            final(self).sets_v() == old(self).sets_v(),
            final(self).cates_v() == old(self).cates_v(),
            ({
                let okc = old(self).spec_set_visible(set_id, ctx@) && old(self).spec_cate_visible(
                    set_cate_id,
                    ctx@,
                ) && old(self).spec_cate(set_cate_id).rel_set_id == set_id;
                match r {
                    Ok(id) => {
                        &&& okc
                        &&& !old(self).spec_attached(set_cate_id, rel_rbum_item_id)
                        &&& id == old(self).next_id
                        &&& final(self).next_id == old(self).next_id + 1
                        &&& final(self).items_v() =~= old(self).items_v().push(
                            (RbumSetItemV {
                                id: id,
                                rel_set_id: set_id,
                                rel_cate_id: set_cate_id,
                                rel_item_id: rel_rbum_item_id,
                                sort: sort,
                                own_paths: ctx@.own_paths,
                                deleted: false,
                            }),
                        )
                    },
                    Err(e) => {
                        &&& (e == RbumError::NotFound || e == RbumError::Conflict)
                        &&& *final(self) == *old(self)
                        &&& (e == RbumError::NotFound <==> !okc)
                        &&& (e == RbumError::Conflict <==> okc && old(self).spec_attached(
                            set_cate_id,
                            rel_rbum_item_id,
                        ))
                    },
                }
            }),
    {
        let si = match self.find_set_idx(set_id) {
            None => {
                return Err(RbumError::NotFound);
            },
            Some(i) => i,
        };
        proof {
            self.lemma_set_at(si as int);
        }
        if self.sets[si].deleted || !visible(
            ctx,
            &self.sets[si].own_paths,
            self.sets[si].scope_level,
            false,
        ) {
            return Err(RbumError::NotFound);
        }
        let ci = match self.find_cate_idx(set_cate_id) {
            None => {
                return Err(RbumError::NotFound);
            },
            Some(i) => i,
        };
        proof {
            self.lemma_cate_at(ci as int);
        }
        if self.cates[ci].deleted || !visible(
            ctx,
            &self.cates[ci].own_paths,
            self.cates[ci].scope_level,
            false,
        ) || self.cates[ci].rel_set_id != set_id {
            return Err(RbumError::NotFound);
        }
        if self.find_attachment(set_cate_id, rel_rbum_item_id).is_some() {
            return Err(RbumError::Conflict);
        }
        let id = self.next_id;
        self.next_id = self.next_id + 1;
        let rec = RbumSetItem {
            id,
            rel_set_id: set_id,
            rel_cate_id: set_cate_id,
            rel_item_id: rel_rbum_item_id,
            sort,
            own_paths: clone_path(&ctx.own_paths),
            deleted: false,
        };
        let ghost pre = *self;
        proof {
            lemma_map_push(self.items@, |it: RbumSetItem| it@, rec);
            lemma_ids_push(self.items_v(), |it: RbumSetItemV| it.id, id, rec@, self.next_id);
        }
        self.items.push(rec);
        proof {
            assert forall|k: int|
                0 <= k < self.items_v().len() && !(#[trigger] self.items_v()[k]).deleted implies self.spec_cate_live(
                self.items_v()[k].rel_cate_id,
            ) by {
                if k < pre.items_v().len() {
                    assert(self.items_v()[k] == old(self).items_v()[k]);
                    assert(!(#[trigger] old(self).items_v()[k]).deleted);
                    assert(old(self).spec_cate_live(old(self).items_v()[k].rel_cate_id));
                    let w = choose|j: int|
                        0 <= j < old(self).cates_v().len() && (#[trigger] old(self).cates_v()[
                            j
                        ]).id == old(self).items_v()[k].rel_cate_id && !old(self).cates_v()[
                            j
                        ].deleted;
                    assert(self.cates_v()[w].id == self.items_v()[k].rel_cate_id
                        && !self.cates_v()[w].deleted);
                } else {
                    assert(self.cates_v()[ci as int].id == set_cate_id && !self.cates_v()[
                        ci as int
                    ].deleted);
                }
            }
        }
        Ok(id)
    }

    /// Updates the sort key of an attachment.
    pub fn modify_set_item(&mut self, set_item_id: u64, sort: u32, ctx: &RbumContext) -> (r: Result<
        (),
        RbumError,
    >)
        requires
            old(self).wf(),
        ensures
            final(self).wf(),
            final(self).sets_v() == old(self).sets_v(),
            final(self).cates_v() == old(self).cates_v(),
            final(self).next_id == old(self).next_id,
            match r {
                Ok(_) => {
                    &&& old(self).spec_set_item_visible(set_item_id, ctx@, false)
                    &&& spec_scope_admin(
                        ctx@.own_paths,
                        old(self).spec_set_item(set_item_id).own_paths,
                    )
                    &&& final(self).items_v() =~= old(self).items_v().update(
                        old(self).spec_set_item_idx(set_item_id),
                        (RbumSetItemV { sort: sort, ..old(self).spec_set_item(set_item_id) }),
                    )
                },
                Err(e) => {
                    &&& (e == RbumError::NotFound || e == RbumError::Forbidden)
                    &&& *final(self) == *old(self)
                    &&& (e == RbumError::NotFound <==> !old(self).spec_set_item_visible(
                        set_item_id,
                        ctx@,
                        false,
                    ))
                    &&& (e == RbumError::Forbidden <==> old(self).spec_set_item_visible(
                        set_item_id,
                        ctx@,
                        false,
                    ) && !spec_scope_admin(
                        ctx@.own_paths,
                        old(self).spec_set_item(set_item_id).own_paths,
                    ))
                },
            },
    {
        let i = match self.find_set_item_idx(set_item_id) {
            None => {
                return Err(RbumError::NotFound);
            },
            Some(i) => i,
        };
        proof {
            self.lemma_set_item_at(i as int);
        }
        if self.items[i].deleted {
            return Err(RbumError::NotFound);
        }
        if !visible(ctx, &self.items[i].own_paths, 0, false) {
            return Err(RbumError::NotFound);
        }
        if !is_scope_admin(ctx, &self.items[i].own_paths) {
            return Err(RbumError::Forbidden);
        }
        let mut updated = self.items[i].duplicate();
        updated.sort = sort;
        let ghost pre = *self;
        proof {
            assert(updated@ =~= (RbumSetItemV { sort: sort, ..pre.spec_set_item(set_item_id) }));
            lemma_map_update(self.items@, |it: RbumSetItem| it@, i as int, updated);
            lemma_ids_update(
                self.items_v(),
                |it: RbumSetItemV| it.id,
                self.next_id,
                i as int,
                updated@,
            );
        }
        self.items.set(i, updated);
        proof {
            Self::lemma_item_update_keeps_cate_live(pre, *self, i as int);
        }
        Ok(())
    }

    /// Detaches (soft-deletes) an attachment.
    pub fn delete_set_item(&mut self, set_item_id: u64, ctx: &RbumContext) -> (r: Result<
        u64,
        RbumError,
    >)
        requires
            old(self).wf(),
        ensures
            final(self).wf(),
            final(self).sets_v() == old(self).sets_v(),
            final(self).cates_v() == old(self).cates_v(),
            final(self).next_id == old(self).next_id,
            match r {
                Ok(n) => {
                    &&& n == 1
                    &&& old(self).spec_set_item_visible(set_item_id, ctx@, false)
                    &&& spec_scope_admin(
                        ctx@.own_paths,
                        old(self).spec_set_item(set_item_id).own_paths,
                    )
                    &&& final(self).items_v() =~= old(self).items_v().update(
                        old(self).spec_set_item_idx(set_item_id),
                        (RbumSetItemV { deleted: true, ..old(self).spec_set_item(set_item_id) }),
                    )
                },
                Err(e) => {
                    &&& (e == RbumError::NotFound || e == RbumError::Forbidden)
                    &&& *final(self) == *old(self)
                    &&& (e == RbumError::NotFound <==> !old(self).spec_set_item_visible(
                        set_item_id,
                        ctx@,
                        false,
                    ))
                    &&& (e == RbumError::Forbidden <==> old(self).spec_set_item_visible(
                        set_item_id,
                        ctx@,
                        false,
                    ) && !spec_scope_admin(
                        ctx@.own_paths,
                        old(self).spec_set_item(set_item_id).own_paths,
                    ))
                },
            },
    {
        let i = match self.find_set_item_idx(set_item_id) {
            None => {
                return Err(RbumError::NotFound);
            },
            Some(i) => i,
        };
        proof {
            self.lemma_set_item_at(i as int);
        }
        if self.items[i].deleted {
            return Err(RbumError::NotFound);
        }
        if !visible(ctx, &self.items[i].own_paths, 0, false) {
            return Err(RbumError::NotFound);
        }
        if !is_scope_admin(ctx, &self.items[i].own_paths) {
            return Err(RbumError::Forbidden);
        }
        let mut updated = self.items[i].duplicate();
        updated.deleted = true;
        let ghost pre = *self;
        proof {
            assert(updated@ =~= (RbumSetItemV {
                deleted: true,
                ..pre.spec_set_item(set_item_id)
            }));
            lemma_map_update(self.items@, |it: RbumSetItem| it@, i as int, updated);
            lemma_ids_update(
                self.items_v(),
                |it: RbumSetItemV| it.id,
                self.next_id,
                i as int,
                updated@,
            );
        }
        self.items.set(i, updated);
        proof {
            assert forall|k: int|
                0 <= k < self.items_v().len() && !(#[trigger] self.items_v()[k]).deleted implies self.spec_cate_live(
                self.items_v()[k].rel_cate_id,
            ) by {
                assert(k != i);
                assert(pre.spec_cate_live(pre.items_v()[k].rel_cate_id));
                let w = choose|j: int|
                    0 <= j < pre.cates_v().len() && (#[trigger] pre.cates_v()[j]).id
                        == pre.items_v()[k].rel_cate_id && !pre.cates_v()[j].deleted;
                assert(self.cates_v()[w].id == self.items_v()[k].rel_cate_id && !self.cates_v()[
                    w
                ].deleted);
            }
        }
        Ok(1)
    }

    /// Attachment invariants survive replacing one attachment without
    /// touching its identity, node or liveness.
    proof fn lemma_item_update_keeps_cate_live(pre: IamSetServ, post: IamSetServ, i: int)
        requires
            0 <= i < pre.items_v().len(),
            post.cates_v() == pre.cates_v(),
            post.items_v().len() == pre.items_v().len(),
            forall|k: int|
                0 <= k < pre.items_v().len() && k != i ==> post.items_v()[k] == pre.items_v()[k],
            post.items_v()[i].rel_cate_id == pre.items_v()[i].rel_cate_id,
            post.items_v()[i].deleted == pre.items_v()[i].deleted,
            forall|k: int|
                0 <= k < pre.items_v().len() && !(#[trigger] pre.items_v()[k]).deleted
                    ==> pre.spec_cate_live(pre.items_v()[k].rel_cate_id),
        ensures
            forall|k: int|
                0 <= k < post.items_v().len() && !(#[trigger] post.items_v()[k]).deleted
                    ==> post.spec_cate_live(post.items_v()[k].rel_cate_id),
    {
        assert forall|k: int|
            0 <= k < post.items_v().len() && !(#[trigger] post.items_v()[k]).deleted implies post.spec_cate_live(
            post.items_v()[k].rel_cate_id,
        ) by {
            assert(post.items_v()[k].rel_cate_id == pre.items_v()[k].rel_cate_id);
            assert(!pre.items_v()[k].deleted);
            assert(pre.spec_cate_live(pre.items_v()[k].rel_cate_id));
            let w = choose|j: int|
                0 <= j < pre.cates_v().len() && (#[trigger] pre.cates_v()[j]).id == pre.items_v()[
                    k
                ].rel_cate_id && !pre.cates_v()[j].deleted;
            assert(post.cates_v()[w].id == post.items_v()[k].rel_cate_id && !post.cates_v()[
                w
            ].deleted);
        }
    }

    /// Resolves the live node of a set by its exact positional code.
    pub open spec fn spec_cate_code_taken(self, set_id: u64, code: Seq<u32>) -> bool {
        exists|i: int|
            0 <= i < self.cates_v().len() && !(#[trigger] self.cates_v()[i]).deleted
                && self.cates_v()[i].rel_set_id == set_id && self.cates_v()[i].sys_code == code
    }

    pub open spec fn spec_cate_by_code_idx(self, set_id: u64, code: Seq<u32>) -> int {
        choose|i: int|
            0 <= i < self.cates_v().len() && !(#[trigger] self.cates_v()[i]).deleted
                && self.cates_v()[i].rel_set_id == set_id && self.cates_v()[i].sys_code == code
    }

    /// The unique live node of the set carrying the code.
    pub open spec fn spec_cate_by_code(self, set_id: u64, code: Seq<u32>) -> RbumSetCateV {
        self.cates_v()[self.spec_cate_by_code_idx(set_id, code)]
    }

    proof fn lemma_cate_code_at(self, i: int)
        requires
            self.wf(),
            0 <= i < self.cates_v().len(),
            !self.cates_v()[i].deleted,
        ensures
            self.spec_cate_code_taken(self.cates_v()[i].rel_set_id, self.cates_v()[i].sys_code),
            self.spec_cate_by_code_idx(self.cates_v()[i].rel_set_id, self.cates_v()[i].sys_code)
                == i,
            self.spec_cate_by_code(self.cates_v()[i].rel_set_id, self.cates_v()[i].sys_code)
                == self.cates_v()[i],
    {
        let set_id = self.cates_v()[i].rel_set_id;
        let code = self.cates_v()[i].sys_code;
        assert(self.spec_cate_code_taken(set_id, code));
        let j = self.spec_cate_by_code_idx(set_id, code);
        if i < j {
            assert(!(self.cates_v()[i].rel_set_id == self.cates_v()[j].rel_set_id
                && self.cates_v()[i].sys_code == self.cates_v()[j].sys_code));
        } else if j < i {
            assert(!(self.cates_v()[j].rel_set_id == self.cates_v()[i].rel_set_id
                && self.cates_v()[j].sys_code == self.cates_v()[i].sys_code));
        }
    }

    /// The id of the live node of `set_id` carrying exactly
    /// `filter_sys_code`, when it exists and is visible.
    pub fn get_cate_id_with_sys_code(
        &self,
        set_id: u64,
        filter_sys_code: &SysCode,
        ctx: &RbumContext,
    ) -> (r: Option<u64>)
        requires
            self.wf(),
        ensures
            ({
                let c = self.spec_cate_by_code(set_id, filter_sys_code.nodes@);
                match r {
                    Some(id) => {
                        &&& self.spec_cate_code_taken(set_id, filter_sys_code.nodes@)
                        &&& id == c.id
                        &&& spec_visible(ctx@.own_paths, c.own_paths, c.scope_level as nat, false)
                    },
                    None => !(self.spec_cate_code_taken(set_id, filter_sys_code.nodes@)
                        && spec_visible(
                        ctx@.own_paths,
                        c.own_paths,
                        c.scope_level as nat,
                        false,
                    )),
                }
            }),
    {
        let n = self.cates.len();
        let mut i: usize = 0;
        while i < n
            invariant
                self.wf(),
                n == self.cates@.len(),
                i <= n,
                forall|k: int|
                    0 <= k < i ==> !(!(#[trigger] self.cates_v()[k]).deleted && self.cates_v()[
                        k
                    ].rel_set_id == set_id && self.cates_v()[k].sys_code
                        == filter_sys_code.nodes@),
            decreases n - i,
        {
            let c = &self.cates[i];
            if !c.deleted && c.rel_set_id == set_id && c.sys_code.same_as(filter_sys_code) {
                proof {
                    self.lemma_cate_code_at(i as int);
                }
                if !visible(ctx, &c.own_paths, c.scope_level, false) {
                    return None;
                }
                return Some(c.id);
            }
            i += 1;
        }
        None
    }

    /// The node sequences of a vector of codes.
    pub open spec fn spec_codes_nodes(codes: Seq<SysCode>) -> Seq<Seq<u32>> {
        codes.map_values(|c: SysCode| c.nodes@)
    }

    /// Does one filter code select `code`: exactly, or — for subtree
    /// queries — as a prefix?
    pub open spec fn spec_one_code_match(
        filter_code: Seq<u32>,
        kind: RbumSetCateLevelQueryKind,
        code: Seq<u32>,
    ) -> bool {
        match kind {
            RbumSetCateLevelQueryKind::Current => filter_code == code,
            RbumSetCateLevelQueryKind::CurrentAndSub => spec_code_prefix(filter_code, code),
        }
    }

    /// Does any of the filter codes select `code`?
    pub open spec fn spec_codes_any_match(
        cs: Seq<Seq<u32>>,
        kind: RbumSetCateLevelQueryKind,
        code: Seq<u32>,
    ) -> bool {
        exists|i: int| 0 <= i < cs.len() && Self::spec_one_code_match(#[trigger] cs[i], kind, code)
    }

    /// Does `code` pass the filter: no filter at all, or one of the
    /// filter codes selecting it?
    pub open spec fn spec_code_filter_match(
        codes: Option<Seq<Seq<u32>>>,
        kind: RbumSetCateLevelQueryKind,
        code: Seq<u32>,
    ) -> bool {
        match codes {
            None => true,
            Some(cs) => Self::spec_codes_any_match(cs, kind, code),
        }
    }

    fn code_matches_any(codes: &Vec<SysCode>, kind: RbumSetCateLevelQueryKind, code: &SysCode) -> (r:
        bool)
        ensures
            r == Self::spec_code_filter_match(
                Some(Self::spec_codes_nodes(codes@)),
                kind,
                code.nodes@,
            ),
    {
        let ghost cs = Self::spec_codes_nodes(codes@);
        let n = codes.len();
        let mut i: usize = 0;
        while i < n
            invariant
                n == codes@.len(),
                cs == Self::spec_codes_nodes(codes@),
                i <= n,
                forall|k: int|
                    0 <= k < i ==> !Self::spec_one_code_match(#[trigger] cs[k], kind, code.nodes@),
            decreases n - i,
        {
            let hit = match kind {
                RbumSetCateLevelQueryKind::Current => codes[i].same_as(code),
                RbumSetCateLevelQueryKind::CurrentAndSub => codes[i].is_prefix_of(code),
            };
            proof {
                assert(cs[i as int] == codes@[i as int].nodes@);
            }
            if hit {
                proof {
                    assert(Self::spec_one_code_match(cs[i as int], kind, code.nodes@));
                    assert(Self::spec_codes_any_match(cs, kind, code.nodes@));
                }
                return true;
            }
            i += 1;
        }
        false
    }

    /// Does the live node pass a tree query of `set_id` under the
    /// caller's sight and the code filter?
    pub open spec fn spec_tree_matches(
        ctx: RbumContextV,
        set_id: u64,
        codes: Option<Seq<Seq<u32>>>,
        kind: RbumSetCateLevelQueryKind,
        c: RbumSetCateV,
    ) -> bool {
        &&& !c.deleted
        &&& c.rel_set_id == set_id
        &&& spec_visible(ctx.own_paths, c.own_paths, c.scope_level as nat, false)
        &&& Self::spec_code_filter_match(codes, kind, c.sys_code)
    }

    /// The view of an optional code filter.
    pub open spec fn spec_codes_view(codes: Option<Vec<SysCode>>) -> Option<Seq<Seq<u32>>> {
        match codes {
            None => None,
            Some(cs) => Some(Self::spec_codes_nodes(cs@)),
        }
    }

    /// The nodes a tree query returns, in insertion order.
    pub open spec fn spec_tree(
        self,
        ctx: RbumContextV,
        set_id: u64,
        codes: Option<Seq<Seq<u32>>>,
        kind: RbumSetCateLevelQueryKind,
    ) -> Seq<RbumSetCateV> {
        self.cates_v().filter(
            |c: RbumSetCateV| Self::spec_tree_matches(ctx, set_id, codes, kind, c),
        )
    }

    /// Fetches the visible nodes of the set passing the code filter —
    /// the whole tree, one subtree, or several.
    pub fn get_tree(
        &self,
        set_id: u64,
        sys_codes: &Option<Vec<SysCode>>,
        sys_code_query_kind: RbumSetCateLevelQueryKind,
        ctx: &RbumContext,
    ) -> (r: Vec<RbumSetCate>)
        requires
            self.wf(),
        ensures
            r@.map_values(|c: RbumSetCate| c@) == self.spec_tree(
                ctx@,
                set_id,
                Self::spec_codes_view(*sys_codes),
                sys_code_query_kind,
            ),
    {
        let ghost codesv = Self::spec_codes_view(*sys_codes);
        let ghost pred = |c: RbumSetCateV|
            Self::spec_tree_matches(ctx@, set_id, codesv, sys_code_query_kind, c);
        let mut acc: Vec<RbumSetCate> = Vec::new();
        let n = self.cates.len();
        let mut i: usize = 0;
        while i < n
            invariant
                self.wf(),
                n == self.cates@.len(),
                i <= n,
                acc@.map_values(|c: RbumSetCate| c@) =~= self.cates_v().subrange(0, i as int)
                    .filter(pred),
                codesv == Self::spec_codes_view(*sys_codes),
                pred == (|c: RbumSetCateV|
                    Self::spec_tree_matches(ctx@, set_id, codesv, sys_code_query_kind, c)),
            decreases n - i,
        {
            let c = &self.cates[i];
            let mut keep = !c.deleted && c.rel_set_id == set_id && visible(
                ctx,
                &c.own_paths,
                c.scope_level,
                false,
            );
            if keep {
                keep = match sys_codes {
                    None => true,
                    Some(cs) => Self::code_matches_any(cs, sys_code_query_kind, &c.sys_code),
                };
            }
            proof {
                assert(keep == pred(self.cates_v()[i as int]));
                lemma_filter_take_push(self.cates_v(), pred, i as int);
            }
            if keep {
                let dup = self.cates[i].duplicate();
                proof {
                    lemma_map_push(acc@, |c: RbumSetCate| c@, dup);
                }
                acc.push(dup);
            }
            i += 1;
        }
        proof {
            assert(self.cates_v().subrange(0, n as int) =~= self.cates_v());
        }
        acc
    }

    /// The tag sequences of a vector of classification tags.
    pub open spec fn spec_exts_nodes(es: Seq<String>) -> Seq<Seq<char>> {
        es.map_values(|s: String| s@)
    }

    /// Does any of the given tags equal `ext`?
    pub open spec fn spec_ext_any_match(es: Seq<Seq<char>>, ext: Seq<char>) -> bool {
        exists|i: int| 0 <= i < es.len() && #[trigger] es[i] == ext
    }

    /// Does the node's classification tag pass the tag filter: no filter
    /// at all, or an exact match with one of the given tags?
    pub open spec fn spec_ext_filter_match(exts: Option<Seq<Seq<char>>>, ext: Seq<char>) -> bool {
        match exts {
            None => true,
            Some(es) => Self::spec_ext_any_match(es, ext),
        }
    }

    /// The view of an optional tag filter.
    pub open spec fn spec_exts_view(exts: Option<Vec<String>>) -> Option<Seq<Seq<char>>> {
        match exts {
            None => None,
            Some(es) => Some(Self::spec_exts_nodes(es@)),
        }
    }

    fn ext_matches_any(es: &Vec<String>, ext: &String) -> (r: bool)
        ensures
            r == Self::spec_ext_any_match(Self::spec_exts_nodes(es@), ext@),
    {
        let ghost tags = Self::spec_exts_nodes(es@);
        let n = es.len();
        let mut i: usize = 0;
        while i < n
            invariant
                n == es@.len(),
                tags == Self::spec_exts_nodes(es@),
                i <= n,
                forall|k: int| 0 <= k < i ==> #[trigger] tags[k] != ext@,
            decreases n - i,
        {
            proof {
                assert(tags[i as int] == es@[i as int]@);
            }
            if es[i] == *ext {
                proof {
                    assert(Self::spec_ext_any_match(tags, ext@));
                }
                return true;
            }
            i += 1;
        }
        false
    }

    /// The menu subtree of a resource set: everything under the zero root
    /// code, narrowed — when a tag filter is given — to the nodes whose
    /// classification tag is among the given ones.  The tag narrowing is
    /// a post-filter over the fetched subtree.
    pub fn get_menu_tree(
        &self,
        set_id: u64,
        cate_exts: &Option<Vec<String>>,
        ctx: &RbumContext,
    ) -> (r: Vec<RbumSetCate>)
        requires
            self.wf(),
        ensures
            r@.map_values(|c: RbumSetCate| c@) == self.spec_tree(
                ctx@,
                set_id,
                Some(seq![seq![0u32]]),
                RbumSetCateLevelQueryKind::CurrentAndSub,
            ).filter(
                |c: RbumSetCateV|
                    Self::spec_ext_filter_match(Self::spec_exts_view(*cate_exts), c.ext),
            ),
    {
        let mut codes: Vec<SysCode> = Vec::new();
        codes.push(SysCode::root_menu());
        let filter = Some(codes);
        let base = self.get_tree(set_id, &filter, RbumSetCateLevelQueryKind::CurrentAndSub, ctx);
        proof {
            assert(Self::spec_codes_view(filter)->0 =~= seq![seq![0u32]]);
        }
        let ghost basev = base@.map_values(|c: RbumSetCate| c@);
        let ghost pred = |c: RbumSetCateV|
            Self::spec_ext_filter_match(Self::spec_exts_view(*cate_exts), c.ext);
        let mut acc: Vec<RbumSetCate> = Vec::new();
        let n = base.len();
        let mut i: usize = 0;
        while i < n
            invariant
                n == base@.len(),
                i <= n,
                basev == base@.map_values(|c: RbumSetCate| c@),
                acc@.map_values(|c: RbumSetCate| c@) =~= basev.subrange(0, i as int).filter(pred),
                pred == (|c: RbumSetCateV|
                    Self::spec_ext_filter_match(Self::spec_exts_view(*cate_exts), c.ext)),
            decreases n - i,
        {
            let c = &base[i];
            let keep = match cate_exts {
                None => true,
                Some(es) => Self::ext_matches_any(es, &c.ext),
            };
            proof {
                assert(basev[i as int] == base@[i as int]@);
                assert(keep == pred(basev[i as int]));
                lemma_filter_take_push(basev, pred, i as int);
            }
            if keep {
                let dup = base[i].duplicate();
                proof {
                    lemma_map_push(acc@, |c: RbumSetCate| c@, dup);
                }
                acc.push(dup);
            }
            i += 1;
        }
        proof {
            assert(basev.subrange(0, n as int) =~= basev);
        }
        acc
    }

    /// The API subtree of a resource set: everything under the next
    /// sibling of the zero root code.
    pub fn get_api_tree(&self, set_id: u64, ctx: &RbumContext) -> (r: Vec<RbumSetCate>)
        requires
            self.wf(),
        ensures
            r@.map_values(|c: RbumSetCate| c@) == self.spec_tree(
                ctx@,
                set_id,
                Some(seq![seq![1u32]]),
                RbumSetCateLevelQueryKind::CurrentAndSub,
            ),
    {
        let mut codes: Vec<SysCode> = Vec::new();
        codes.push(SysCode::root_api());
        let filter = Some(codes);
        let r = self.get_tree(set_id, &filter, RbumSetCateLevelQueryKind::CurrentAndSub, ctx);
        proof {
            assert(Self::spec_codes_view(filter)->0 =~= seq![seq![1u32]]);
        }
        r
    }

    /// Does the live attachment pass the find filter under the caller's
    /// sight?
    pub open spec fn spec_set_item_matches(
        ctx: RbumContextV,
        set_id: Option<u64>,
        set_cate_id: Option<u64>,
        item_id: Option<u64>,
        with_sub: bool,
        it: RbumSetItemV,
    ) -> bool {
        &&& !it.deleted
        &&& (set_id is Some ==> it.rel_set_id == set_id->0)
        &&& (set_cate_id is Some ==> it.rel_cate_id == set_cate_id->0)
        &&& (item_id is Some ==> it.rel_item_id == item_id->0)
        &&& spec_visible(ctx.own_paths, it.own_paths, 0, with_sub)
    }

    /// The find filter as a predicate value: the attachment constraints
    /// and sight, and a live, enabled resource item behind the row.
    pub open spec fn spec_set_item_pred(
        items: crate::item::ItemStore,
        ctx: RbumContextV,
        set_id: Option<u64>,
        set_cate_id: Option<u64>,
        item_id: Option<u64>,
        with_sub: bool,
    ) -> spec_fn(RbumSetItemV) -> bool {
        |it: RbumSetItemV|
            Self::spec_set_item_matches(ctx, set_id, set_cate_id, item_id, with_sub, it)
                && items.spec_item_enabled(it.rel_item_id)
    }

    /// The attachments a find selects, in insertion order; rows whose
    /// resource item is missing, deleted or disabled are dropped.
    pub open spec fn spec_set_items_found(
        self,
        items: crate::item::ItemStore,
        ctx: RbumContextV,
        set_id: Option<u64>,
        set_cate_id: Option<u64>,
        item_id: Option<u64>,
        with_sub: bool,
    ) -> Seq<RbumSetItemV> {
        self.items_v().filter(
            Self::spec_set_item_pred(items, ctx, set_id, set_cate_id, item_id, with_sub),
        )
    }

    /// An attachment listed by a find is a live record of the table, and
    /// the node it hangs off is live.
    proof fn lemma_found_item_cate_live(
        self,
        items: crate::item::ItemStore,
        ctx: RbumContextV,
        set_id: Option<u64>,
        set_cate_id: Option<u64>,
        item_id: Option<u64>,
        with_sub: bool,
        i: int,
    )
        requires
            self.wf(),
            0 <= i < self.spec_set_items_found(
                items,
                ctx,
                set_id,
                set_cate_id,
                item_id,
                with_sub,
            ).len(),
        ensures
            ({
                let it = self.spec_set_items_found(
                    items,
                    ctx,
                    set_id,
                    set_cate_id,
                    item_id,
                    with_sub,
                )[i];
                &&& !it.deleted
                &&& self.spec_cate_live(it.rel_cate_id)
                &&& self.spec_has_cate(it.rel_cate_id)
                &&& !self.spec_cate(it.rel_cate_id).deleted
            }),
    {
        let pred = Self::spec_set_item_pred(items, ctx, set_id, set_cate_id, item_id, with_sub);
        let found = self.spec_set_items_found(items, ctx, set_id, set_cate_id, item_id, with_sub);
        let it = found[i];
        self.items_v().lemma_filter_pred(pred, i);
        assert(found.contains(it));
        self.items_v().lemma_filter_contains_rev(pred, it);
        let p = choose|p: int| 0 <= p < self.items_v().len() && self.items_v()[p] == it;
        assert(!(#[trigger] self.items_v()[p]).deleted);
        assert(self.spec_cate_live(it.rel_cate_id));
        let w = choose|j: int|
            0 <= j < self.cates_v().len() && (#[trigger] self.cates_v()[j]).id == it.rel_cate_id
                && !self.cates_v()[j].deleted;
        self.lemma_cate_at(w);
    }

    /// Lists the visible attachments matching any of the optional set,
    /// node and item constraints, dropping rows whose resource item is
    /// missing, deleted or disabled.
    pub fn find_set_items(
        &self,
        items: &crate::item::ItemStore,
        set_id: Option<u64>,
        set_cate_id: Option<u64>,
        item_id: Option<u64>,
        with_sub: bool,
        ctx: &RbumContext,
    ) -> (r: Vec<RbumSetItem>)
        requires
            self.wf(),
            items.wf(),
        ensures
            r@.map_values(|it: RbumSetItem| it@) == self.spec_set_items_found(
                *items,
                ctx@,
                set_id,
                set_cate_id,
                item_id,
                with_sub,
            ),
    {
        let ghost pred = Self::spec_set_item_pred(
            *items,
            ctx@,
            set_id,
            set_cate_id,
            item_id,
            with_sub,
        );
        let mut acc: Vec<RbumSetItem> = Vec::new();
        let n = self.items.len();
        let mut i: usize = 0;
        while i < n
            invariant
                self.wf(),
                items.wf(),
                n == self.items@.len(),
                i <= n,
                acc@.map_values(|it: RbumSetItem| it@) =~= self.items_v().subrange(0, i as int)
                    .filter(pred),
                pred == Self::spec_set_item_pred(
                    *items,
                    ctx@,
                    set_id,
                    set_cate_id,
                    item_id,
                    with_sub,
                ),
            decreases n - i,
        {
            let it = &self.items[i];
            let mut keep = !it.deleted && visible(ctx, &it.own_paths, 0, with_sub);
            if keep {
                keep = match set_id {
                    Some(s) => it.rel_set_id == s,
                    None => true,
                };
            }
            if keep {
                keep = match set_cate_id {
                    Some(c) => it.rel_cate_id == c,
                    None => true,
                };
            }
            if keep {
                keep = match item_id {
                    Some(x) => it.rel_item_id == x,
                    None => true,
                };
            }
            if keep {
                keep = items.is_item_enabled(it.rel_item_id);
            }
            proof {
                assert(keep == pred(self.items_v()[i as int]));
                lemma_filter_take_push(self.items_v(), pred, i as int);
            }
            if keep {
                let dup = self.items[i].duplicate();
                proof {
                    lemma_map_push(acc@, |it: RbumSetItem| it@, dup);
                }
                acc.push(dup);
            }
            i += 1;
        }
        proof {
            assert(self.items_v().subrange(0, n as int) =~= self.items_v());
        }
        acc
    }

    /// Flattens the attachments of one item in one set into
    /// `(set:code, node name)` pairs, rendering the positional code at
    /// this storage boundary.
    pub fn find_flat_set_items(
        &self,
        items: &crate::item::ItemStore,
        set_id: u64,
        item_id: u64,
        with_sub: bool,
        ctx: &RbumContext,
    ) -> (r: Vec<(String, String)>)
        requires
            self.wf(),
            items.wf(),
        ensures
            ({
                let found = self.spec_set_items_found(
                    *items,
                    ctx@,
                    Some(set_id),
                    None,
                    Some(item_id),
                    with_sub,
                );
                &&& r@.len() == found.len()
                &&& forall|k: int|
                    0 <= k < r@.len() ==> (#[trigger] r@[k]).0@ == spec_dec_chars(
                        found[k].rel_set_id,
                    ) + seq![':'] + crate::sys_code::spec_render(
                        self.spec_cate(found[k].rel_cate_id).sys_code,
                    ) && r@[k].1@ == self.spec_cate(found[k].rel_cate_id).name
            }),
    {
        let rows = self.find_set_items(items, Some(set_id), None, Some(item_id), with_sub, ctx);
        let ghost found = self.spec_set_items_found(
            *items,
            ctx@,
            Some(set_id),
            None,
            Some(item_id),
            with_sub,
        );
        let mut out: Vec<(String, String)> = Vec::new();
        let n = rows.len();
        let mut i: usize = 0;
        while i < n
            invariant
                self.wf(),
                n == rows@.len(),
                i <= n,
                rows@.map_values(|it: RbumSetItem| it@) == found,
                found == self.spec_set_items_found(
                    *items,
                    ctx@,
                    Some(set_id),
                    None,
                    Some(item_id),
                    with_sub,
                ),
                out@.len() == i,
                forall|k: int|
                    0 <= k < i ==> (#[trigger] out@[k]).0@ == spec_dec_chars(found[k].rel_set_id)
                        + seq![':'] + crate::sys_code::spec_render(
                        self.spec_cate(found[k].rel_cate_id).sys_code,
                    ) && out@[k].1@ == self.spec_cate(found[k].rel_cate_id).name,
            decreases n - i,
        {
            let it = &rows[i];
            proof {
                assert(rows@[i as int]@ == found[i as int]);
                self.lemma_found_item_cate_live(
                    *items,
                    ctx@,
                    Some(set_id),
                    None,
                    Some(item_id),
                    with_sub,
                    i as int,
                );
            }
            let j = match self.find_cate_idx(it.rel_cate_id) {
                Some(j) => j,
                None => {
                    proof {
                        assert(false);
                    }
                    return out;
                },
            };
            proof {
                self.lemma_cate_at(j as int);
            }
            let mut key = u64_dec_string(it.rel_set_id);
            key.append(":");
            proof {
                reveal_strlit(":");
                assert(":"@ =~= seq![':']);
            }
            let rendered = self.cates[j].sys_code.render();
            key.append(rendered.as_str());
            let value = self.cates[j].name.clone();
            out.push((key, value));
            i += 1;
        }
        out
    }

    /// The positional codes of the nodes one item is attached to in one
    /// set, under the caller's sight.
    pub open spec fn spec_auth_codes(
        self,
        items: crate::item::ItemStore,
        ctx: RbumContextV,
        set_id: u64,
        account_id: u64,
    ) -> Seq<Seq<u32>> {
        self.spec_set_items_found(items, ctx, Some(set_id), None, Some(account_id), false)
            .map_values(|it: RbumSetItemV| self.spec_cate(it.rel_cate_id).sys_code)
    }

    /// The subtrees an account can see: every node under a node the
    /// account is attached to.
    pub fn get_tree_with_auth_by_account(
        &self,
        items: &crate::item::ItemStore,
        set_id: u64,
        account_id: u64,
        ctx: &RbumContext,
    ) -> (r: Vec<RbumSetCate>)
        requires
            self.wf(),
            items.wf(),
        ensures
            r@.map_values(|c: RbumSetCate| c@) == self.spec_tree(
                ctx@,
                set_id,
                Some(self.spec_auth_codes(*items, ctx@, set_id, account_id)),
                RbumSetCateLevelQueryKind::CurrentAndSub,
            ),
    {
        let rows = self.find_set_items(items, Some(set_id), None, Some(account_id), false, ctx);
        let ghost found = self.spec_set_items_found(
            *items,
            ctx@,
            Some(set_id),
            None,
            Some(account_id),
            false,
        );
        let ghost target = self.spec_auth_codes(*items, ctx@, set_id, account_id);
        let mut codes: Vec<SysCode> = Vec::new();
        let n = rows.len();
        let mut i: usize = 0;
        while i < n
            invariant
                self.wf(),
                n == rows@.len(),
                i <= n,
                rows@.map_values(|it: RbumSetItem| it@) == found,
                found == self.spec_set_items_found(
                    *items,
                    ctx@,
                    Some(set_id),
                    None,
                    Some(account_id),
                    false,
                ),
                target == self.spec_auth_codes(*items, ctx@, set_id, account_id),
                target.len() == found.len(),
                Self::spec_codes_nodes(codes@) =~= target.subrange(0, i as int),
            decreases n - i,
        {
            let it = &rows[i];
            proof {
                assert(rows@[i as int]@ == found[i as int]);
                self.lemma_found_item_cate_live(
                    *items,
                    ctx@,
                    Some(set_id),
                    None,
                    Some(account_id),
                    false,
                    i as int,
                );
            }
            let j = match self.find_cate_idx(it.rel_cate_id) {
                Some(j) => j,
                None => {
                    proof {
                        assert(false);
                    }
                    return Vec::new();
                },
            };
            proof {
                self.lemma_cate_at(j as int);
            }
            let code = self.cates[j].sys_code.clone_code();
            proof {
                assert(code.nodes@ == target[i as int]);
                lemma_map_push(codes@, |c: SysCode| c.nodes@, code);
                assert(target.subrange(0, i as int).push(target[i as int]) =~= target.subrange(
                    0,
                    i + 1,
                ));
            }
            codes.push(code);
            i += 1;
        }
        proof {
            assert(target.subrange(0, n as int) =~= target);
            assert(Self::spec_codes_nodes(codes@) =~= target);
        }
        let filter = Some(codes);
        let r = self.get_tree(set_id, &filter, RbumSetCateLevelQueryKind::CurrentAndSub, ctx);
        proof {
            assert(Self::spec_codes_view(filter)->0 =~= target);
        }
        r
    }

    /// Do the given roles reach the resource item through a live
    /// resource-role edge?  Edges are read with a global view here, as
    /// role grants live above the calling scope.
    pub open spec fn spec_role_permits(
        rels: crate::rel::IamRelServ,
        role_ids: Seq<u64>,
        res_id: u64,
    ) -> bool {
        exists|j: int, k: int|
            #![trigger role_ids[j], rels.rels_v()[k]]
            0 <= j < role_ids.len() && 0 <= k < rels.rels_v().len() && rels.rels_v()[k].tag
                == crate::rel::IamRelKind::IamResRole && !rels.rels_v()[k].deleted
                && rels.rels_v()[k].from_item_id == res_id && rels.rels_v()[k].to_item_id
                == role_ids[j]
    }

    /// Does a live attachment hang a role-permitted resource off the
    /// node?
    pub open spec fn spec_cate_has_permitted_item(
        self,
        rels: crate::rel::IamRelServ,
        role_ids: Seq<u64>,
        cate_id: u64,
    ) -> bool {
        exists|i: int|
            0 <= i < self.items_v().len() && !(#[trigger] self.items_v()[i]).deleted
                && self.items_v()[i].rel_cate_id == cate_id && Self::spec_role_permits(
                rels,
                role_ids,
                self.items_v()[i].rel_item_id,
            )
    }

    /// The menu a set of roles sees: the nodes of the menu subtree that
    /// still carry a resource one of the roles reaches, hiding the rest.
    pub open spec fn spec_menu_by_roles(
        self,
        rels: crate::rel::IamRelServ,
        ctx: RbumContextV,
        set_id: u64,
        role_ids: Seq<u64>,
    ) -> Seq<RbumSetCateV> {
        self.cates_v().filter(
            |c: RbumSetCateV|
                Self::spec_tree_matches(
                    ctx,
                    set_id,
                    Some(seq![seq![0u32]]),
                    RbumSetCateLevelQueryKind::CurrentAndSub,
                    c,
                ) && self.spec_cate_has_permitted_item(rels, role_ids, c.id),
        )
    }

    fn role_permits(rels: &crate::rel::IamRelServ, role_ids: &Vec<u64>, res_id: u64) -> (r: bool)
        ensures
            r == Self::spec_role_permits(*rels, role_ids@, res_id),
    {
        let n = rels.rels.len();
        let mut k: usize = 0;
        while k < n
            invariant
                n == rels.rels@.len(),
                k <= n,
                forall|k2: int, j: int|
                    #![trigger role_ids@[j], rels.rels_v()[k2]]
                    0 <= k2 < k && 0 <= j < role_ids@.len() ==> !(rels.rels_v()[k2].tag
                        == crate::rel::IamRelKind::IamResRole && !rels.rels_v()[k2].deleted
                        && rels.rels_v()[k2].from_item_id == res_id && rels.rels_v()[
                        k2
                    ].to_item_id == role_ids@[j]),
            decreases n - k,
        {
            let e = &rels.rels[k];
            if !e.deleted && matches!(e.tag, crate::rel::IamRelKind::IamResRole)
                && e.from_item_id == res_id {
                let eto = e.to_item_id;
                let m = role_ids.len();
                let mut j: usize = 0;
                while j < m
                    invariant
                        n == rels.rels@.len(),
                        k < n,
                        m == role_ids@.len(),
                        j <= m,
                        eto == rels.rels_v()[k as int].to_item_id,
                        rels.rels_v()[k as int].tag == crate::rel::IamRelKind::IamResRole,
                        !rels.rels_v()[k as int].deleted,
                        rels.rels_v()[k as int].from_item_id == res_id,
                        forall|j2: int|
                            0 <= j2 < j ==> rels.rels_v()[k as int].to_item_id != #[trigger] role_ids@[j2],
                    decreases m - j,
                {
                    if eto == role_ids[j] {
                        proof {
                            assert(rels.rels_v()[k as int].to_item_id == role_ids@[j as int]);
                        }
                        return true;
                    }
                    j += 1;
                }
                proof {
                    assert forall|j2: int| 0 <= j2 < role_ids@.len() implies rels.rels_v()[
                        k as int
                    ].to_item_id != #[trigger] role_ids@[j2] by {}
                }
            }
            k += 1;
        }
        false
    }

    fn cate_has_permitted_item(
        &self,
        rels: &crate::rel::IamRelServ,
        role_ids: &Vec<u64>,
        cate_id: u64,
    ) -> (r: bool)
        ensures
            r == self.spec_cate_has_permitted_item(*rels, role_ids@, cate_id),
    {
        let n = self.items.len();
        let mut i: usize = 0;
        while i < n
            invariant
                n == self.items@.len(),
                i <= n,
                forall|k: int|
                    0 <= k < i ==> !(!(#[trigger] self.items_v()[k]).deleted && self.items_v()[
                        k
                    ].rel_cate_id == cate_id && Self::spec_role_permits(
                        *rels,
                        role_ids@,
                        self.items_v()[k].rel_item_id,
                    )),
            decreases n - i,
        {
            let it = &self.items[i];
            if !it.deleted && it.rel_cate_id == cate_id && Self::role_permits(
                rels,
                role_ids,
                it.rel_item_id,
            ) {
                proof {
                    assert(!(#[trigger] self.items_v()[i as int]).deleted && self.items_v()[
                        i as int
                    ].rel_cate_id == cate_id && Self::spec_role_permits(
                        *rels,
                        role_ids@,
                        self.items_v()[i as int].rel_item_id,
                    ));
                }
                return true;
            }
            i += 1;
        }
        false
    }

    /// Builds the menu tree a set of roles sees: the menu subtree,
    /// hiding every node that carries no resource reachable through the
    /// roles.
    pub fn get_menu_tree_by_roles(
        &self,
        rels: &crate::rel::IamRelServ,
        set_id: u64,
        role_ids: &Vec<u64>,
        ctx: &RbumContext,
    ) -> (r: Vec<RbumSetCate>)
        requires
            self.wf(),
        ensures
            r@.map_values(|c: RbumSetCate| c@) == self.spec_menu_by_roles(
                *rels,
                ctx@,
                set_id,
                role_ids@,
            ),
    {
        let ghost pred = |c: RbumSetCateV|
            Self::spec_tree_matches(
                ctx@,
                set_id,
                Some(seq![seq![0u32]]),
                RbumSetCateLevelQueryKind::CurrentAndSub,
                c,
            ) && self.spec_cate_has_permitted_item(*rels, role_ids@, c.id);
        let root = SysCode::root_menu();
        let mut acc: Vec<RbumSetCate> = Vec::new();
        let n = self.cates.len();
        let mut i: usize = 0;
        while i < n
            invariant
                self.wf(),
                n == self.cates@.len(),
                i <= n,
                root.nodes@ =~= seq![0u32],
                acc@.map_values(|c: RbumSetCate| c@) =~= self.cates_v().subrange(0, i as int)
                    .filter(pred),
                pred == (|c: RbumSetCateV|
                    Self::spec_tree_matches(
                        ctx@,
                        set_id,
                        Some(seq![seq![0u32]]),
                        RbumSetCateLevelQueryKind::CurrentAndSub,
                        c,
                    ) && self.spec_cate_has_permitted_item(*rels, role_ids@, c.id)),
            decreases n - i,
        {
            let c = &self.cates[i];
            let mut keep = !c.deleted && c.rel_set_id == set_id && visible(
                ctx,
                &c.own_paths,
                c.scope_level,
                false,
            ) && root.is_prefix_of(&c.sys_code);
            proof {
                let menu_codes: Seq<Seq<u32>> = seq![seq![0u32]];
                assert(spec_code_prefix(seq![0u32], self.cates_v()[i as int].sys_code)
                    == Self::spec_codes_any_match(
                    menu_codes,
                    RbumSetCateLevelQueryKind::CurrentAndSub,
                    self.cates_v()[i as int].sys_code,
                )) by {
                    if spec_code_prefix(seq![0u32], self.cates_v()[i as int].sys_code) {
                        assert(Self::spec_one_code_match(
                            menu_codes[0],
                            RbumSetCateLevelQueryKind::CurrentAndSub,
                            self.cates_v()[i as int].sys_code,
                        ));
                    }
                    if Self::spec_codes_any_match(
                        menu_codes,
                        RbumSetCateLevelQueryKind::CurrentAndSub,
                        self.cates_v()[i as int].sys_code,
                    ) {
                        let w = choose|p: int|
                            0 <= p < menu_codes.len() && Self::spec_one_code_match(
                                #[trigger] menu_codes[p],
                                RbumSetCateLevelQueryKind::CurrentAndSub,
                                self.cates_v()[i as int].sys_code,
                            );
                        assert(w == 0);
                    }
                }
            }
            if keep {
                keep = self.cate_has_permitted_item(rels, role_ids, c.id);
            }
            proof {
                assert(keep == pred(self.cates_v()[i as int]));
                lemma_filter_take_push(self.cates_v(), pred, i as int);
            }
            if keep {
                let dup = self.cates[i].duplicate();
                proof {
                    lemma_map_push(acc@, |c: RbumSetCate| c@, dup);
                }
                acc.push(dup);
            }
            i += 1;
        }
        proof {
            assert(self.cates_v().subrange(0, n as int) =~= self.cates_v());
        }
        acc
    }

    /// Is any node the account hangs under a parent-or-equal of — or a
    /// sibling of — a node the app hangs under, within one set?
    pub open spec fn spec_check_scope(
        self,
        app_id: u64,
        account_id: u64,
        set_id: u64,
        ctx: RbumContextV,
    ) -> bool {
        exists|i: int, j: int|
            #![trigger self.items_v()[i], self.items_v()[j]]
            0 <= i < self.items_v().len() && 0 <= j < self.items_v().len()
                && Self::spec_set_item_matches(
                ctx,
                Some(set_id),
                None,
                Some(account_id),
                false,
                self.items_v()[i],
            ) && Self::spec_set_item_matches(
                ctx,
                Some(set_id),
                None,
                Some(app_id),
                false,
                self.items_v()[j],
            ) && spec_parent_or_sibling(
                self.spec_cate(self.items_v()[i].rel_cate_id).sys_code,
                self.spec_cate(self.items_v()[j].rel_cate_id).sys_code,
            )
    }

    /// Does the account sit at, above, or beside the app in the tree:
    /// some node of the account is a parent-or-equal or a sibling of some
    /// node of the app.
    pub fn check_scope(&self, app_id: u64, account_id: u64, set_id: u64, ctx: &RbumContext) -> (r:
        bool)
        requires
            self.wf(),
        ensures
            r == self.spec_check_scope(app_id, account_id, set_id, ctx@),
    {
        let n = self.items.len();
        let mut i: usize = 0;
        while i < n
            invariant
                self.wf(),
                n == self.items@.len(),
                i <= n,
                forall|i2: int, j2: int|
                    #![trigger self.items_v()[i2], self.items_v()[j2]]
                    0 <= i2 < i && 0 <= j2 < n ==> !(Self::spec_set_item_matches(
                        ctx@,
                        Some(set_id),
                        None,
                        Some(account_id),
                        false,
                        self.items_v()[i2],
                    ) && Self::spec_set_item_matches(
                        ctx@,
                        Some(set_id),
                        None,
                        Some(app_id),
                        false,
                        self.items_v()[j2],
                    ) && spec_parent_or_sibling(
                        self.spec_cate(self.items_v()[i2].rel_cate_id).sys_code,
                        self.spec_cate(self.items_v()[j2].rel_cate_id).sys_code,
                    )),
            decreases n - i,
        {
            let it = &self.items[i];
            let acct_hit = !it.deleted && it.rel_set_id == set_id && it.rel_item_id == account_id
                && visible(ctx, &it.own_paths, 0, false);
            proof {
                assert(acct_hit == Self::spec_set_item_matches(
                    ctx@,
                    Some(set_id),
                    None,
                    Some(account_id),
                    false,
                    self.items_v()[i as int],
                ));
            }
            if acct_hit {
                let ci = match self.find_cate_idx(it.rel_cate_id) {
                    Some(ci) => ci,
                    None => {
                        proof {
                            assert(self.spec_cate_live(self.items_v()[i as int].rel_cate_id));
                            let w = choose|p: int|
                                0 <= p < self.cates_v().len() && (#[trigger] self.cates_v()[p]).id
                                    == self.items_v()[i as int].rel_cate_id && !self.cates_v()[
                                    p
                                ].deleted;
                            assert(self.spec_has_cate(self.items_v()[i as int].rel_cate_id));
                            assert(false);
                        }
                        return false;
                    },
                };
                proof {
                    self.lemma_cate_at(ci as int);
                }
                let mut j: usize = 0;
                while j < n
                    invariant
                        self.wf(),
                        n == self.items@.len(),
                        i < n,
                        j <= n,
                        ci < self.cates@.len(),
                        self.cates_v()[ci as int] == self.spec_cate(
                            self.items_v()[i as int].rel_cate_id,
                        ),
                        Self::spec_set_item_matches(
                            ctx@,
                            Some(set_id),
                            None,
                            Some(account_id),
                            false,
                            self.items_v()[i as int],
                        ),
                        forall|j2: int|
                            0 <= j2 < j ==> !(Self::spec_set_item_matches(
                                ctx@,
                                Some(set_id),
                                None,
                                Some(app_id),
                                false,
                                #[trigger] self.items_v()[j2],
                            ) && spec_parent_or_sibling(
                                self.spec_cate(self.items_v()[i as int].rel_cate_id).sys_code,
                                self.spec_cate(self.items_v()[j2].rel_cate_id).sys_code,
                            )),
                    decreases n - j,
                {
                    let other = &self.items[j];
                    let app_hit = !other.deleted && other.rel_set_id == set_id
                        && other.rel_item_id == app_id && visible(ctx, &other.own_paths, 0, false);
                    proof {
                        assert(app_hit == Self::spec_set_item_matches(
                            ctx@,
                            Some(set_id),
                            None,
                            Some(app_id),
                            false,
                            self.items_v()[j as int],
                        ));
                    }
                    if app_hit {
                        let cj = match self.find_cate_idx(other.rel_cate_id) {
                            Some(cj) => cj,
                            None => {
                                proof {
                                    assert(self.spec_cate_live(
                                        self.items_v()[j as int].rel_cate_id,
                                    ));
                                    let w = choose|p: int|
                                        0 <= p < self.cates_v().len() && (
                                        #[trigger] self.cates_v()[p]).id == self.items_v()[
                                            j as int
                                        ].rel_cate_id && !self.cates_v()[p].deleted;
                                    assert(self.spec_has_cate(
                                        self.items_v()[j as int].rel_cate_id,
                                    ));
                                    assert(false);
                                }
                                return false;
                            },
                        };
                        proof {
                            self.lemma_cate_at(cj as int);
                        }
                        if parent_or_sibling(&self.cates[ci].sys_code, &self.cates[cj].sys_code) {
                            return true;
                        }
                    }
                    j += 1;
                }
            }
            i += 1;
        }
        false
    }

    /// Law: a category standing below another — its positional code
    /// carries the ancestor's code as a prefix, which is exactly what
    /// creation as a descendant establishes — is returned by the subtree
    /// query rooted at the ancestor's code.
    pub proof fn lemma_descendant_in_subtree_query(
        self,
        ctx: RbumContextV,
        set_id: u64,
        root_code: Seq<u32>,
        i: int,
    )
        requires
            self.wf(),
            0 <= i < self.cates_v().len(),
            !self.cates_v()[i].deleted,
            self.cates_v()[i].rel_set_id == set_id,
            spec_visible(
                ctx.own_paths,
                self.cates_v()[i].own_paths,
                self.cates_v()[i].scope_level as nat,
                false,
            ),
            spec_code_prefix(root_code, self.cates_v()[i].sys_code),
        ensures
            self.spec_tree(
                ctx,
                set_id,
                Some(seq![root_code]),
                RbumSetCateLevelQueryKind::CurrentAndSub,
            ).contains(self.cates_v()[i]),
    {
        let codes: Seq<Seq<u32>> = seq![root_code];
        let pred = |c: RbumSetCateV|
            Self::spec_tree_matches(
                ctx,
                set_id,
                Some(codes),
                RbumSetCateLevelQueryKind::CurrentAndSub,
                c,
            );
        assert(Self::spec_one_code_match(
            codes[0],
            RbumSetCateLevelQueryKind::CurrentAndSub,
            self.cates_v()[i].sys_code,
        ));
        assert(Self::spec_codes_any_match(
            codes,
            RbumSetCateLevelQueryKind::CurrentAndSub,
            self.cates_v()[i].sys_code,
        ));
        assert(pred(self.cates_v()[i]));
        self.cates_v().lemma_filter_contains(pred, i);
    }

    fn cate_in_use(&self, id: u64) -> (r: bool)
        ensures
            r == self.spec_cate_in_use(id),
    {
        let n = self.items.len();
        let mut i: usize = 0;
        while i < n
            invariant
                n == self.items@.len(),
                i <= n,
                forall|k: int|
                    0 <= k < i ==> !(!(#[trigger] self.items_v()[k]).deleted && self.items_v()[
                        k
                    ].rel_cate_id == id),
            decreases n - i,
        {
            let it = &self.items[i];
            if !it.deleted && it.rel_cate_id == id {
                proof {
                    assert(!(#[trigger] self.items_v()[i as int]).deleted && self.items_v()[
                        i as int
                    ].rel_cate_id == id);
                }
                return true;
            }
            i += 1;
        }
        false
    }
}

} // verus!

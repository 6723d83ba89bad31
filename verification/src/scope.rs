//! Ownership-path + scope-level visibility.
//!
//! Every persisted entity carries the ownership path it was created under —
//! an ordered chain of ancestor scope ids such as `[tenant, app]` — and a
//! scope level saying how many ancestor levels above that exact scope the
//! entity is visible from.  A request context carries the caller's own
//! ownership path; the single predicate [`visible`] decides every read, and
//! the prefix test [`is_scope_admin`] guards every write.

use vstd::prelude::*;

verus! {

/// Per-request caller identity: who is acting, from which scope, with
/// which roles.  Constructed at request entry, never persisted.
pub struct RbumContext {
    /// Id of the account performing the request.
    pub owner: u64,
    /// The caller's ownership path, outermost scope first.
    pub own_paths: Vec<u64>,
    /// Ids of the roles granted to the caller.
    pub roles: Vec<u64>,
}

/// Mathematical image of a request context.
#[verifier::ext_equal]
pub struct RbumContextV {
    pub owner: u64,
    pub own_paths: Seq<u64>,
    pub roles: Seq<u64>,
}

impl View for RbumContext {
    type V = RbumContextV;

    open spec fn view(&self) -> RbumContextV {
        RbumContextV { owner: self.owner, own_paths: self.own_paths@, roles: self.roles@ }
    }
}

/// `a` is a (possibly equal) prefix of `b`.
pub open spec fn spec_prefix(a: Seq<u64>, b: Seq<u64>) -> bool {
    a.len() <= b.len() && a == b.subrange(0, a.len() as int)
}

/// The visibility rule.  An entity created under path `ent` with scope
/// level `level` is visible to a caller whose path is `ctx` when
///
/// * the entity's path is an ancestor-or-equal of the caller's
///   (exact-scope access), or
/// * the scope level is high enough that both paths agree on the entity's
///   first `ent.len() - level` segments (ancestor access), or
/// * descendant access is requested and the caller's path is an
///   ancestor-or-equal of the entity's.
pub open spec fn spec_visible(
    ctx: Seq<u64>,
    ent: Seq<u64>,
    level: nat,
    with_sub: bool,
) -> bool {
    ||| spec_prefix(ent, ctx)
    ||| spec_prefix(ent.subrange(0, spec_kept_depth(ent.len(), level)), ctx)
    ||| (with_sub && spec_prefix(ctx, ent))
}

/// Depth both paths must agree on for ancestor access: the entity's depth
/// less its scope level, clamped at the root.
pub open spec fn spec_kept_depth(depth: nat, level: nat) -> int {
    if level <= depth {
        depth - level
    } else {
        0
    }
}

/// A caller may mutate an entity only from the entity's own scope or one
/// of its ancestors: the caller's path must be a prefix of the entity's.
pub open spec fn spec_scope_admin(ctx: Seq<u64>, ent: Seq<u64>) -> bool {
    spec_prefix(ctx, ent)
}

/// Exact-equality test on two path slices.
fn paths_eq(a: &[u64], b: &[u64]) -> (r: bool)
    ensures
        r == (a@ == b@),
{
    if a.len() != b.len() {
        proof {
            assert(a@.len() != b@.len());
        }
        return false;
    }
    let n = a.len();
    let mut i: usize = 0;
    while i < n
        invariant
            n == a@.len(),
            n == b@.len(),
            i <= n,
            forall|k: int| 0 <= k < i ==> a@[k] == b@[k],
        decreases n - i,
    {
        if a[i] != b[i] {
            return false;
        }
        i += 1;
    }
    proof {
        assert(a@ =~= b@);
    }
    true
}

/// Is `a` a prefix of `b`?
pub fn is_prefix(a: &Vec<u64>, b: &Vec<u64>) -> (r: bool)
    ensures
        r == spec_prefix(a@, b@),
{
    if a.len() > b.len() {
        return false;
    }
    let n = a.len();
    let mut i: usize = 0;
    while i < n
        invariant
            n == a@.len(),
            n <= b@.len(),
            i <= n,
            forall|k: int| 0 <= k < i ==> a@[k] == b@[k],
        decreases n - i,
    {
        if a[i] != b[i] {
            proof {
                assert(a@ != b@.subrange(0, a@.len() as int));
            }
            return false;
        }
        i += 1;
    }
    proof {
        assert(a@ =~= b@.subrange(0, a@.len() as int));
    }
    true
}

/// Does a prefix of `b` of length `n` exist and equal the first `n`
/// segments of `a`?  Helper for the ancestor-access arm.
fn agree_on(a: &Vec<u64>, b: &Vec<u64>, n: usize) -> (r: bool)
    requires
        n <= a@.len(),
    ensures
        r == spec_prefix(a@.subrange(0, n as int), b@),
{
    if n > b.len() {
        return false;
    }
    let mut i: usize = 0;
    while i < n
        invariant
            n <= a@.len(),
            n <= b@.len(),
            i <= n,
            forall|k: int| 0 <= k < i ==> a@[k] == b@[k],
        decreases n - i,
    {
        if a[i] != b[i] {
            proof {
                let p = a@.subrange(0, n as int);
                assert(p[i as int] != b@.subrange(0, n as int)[i as int]);
            }
            return false;
        }
        i += 1;
    }
    proof {
        assert(a@.subrange(0, n as int) =~= b@.subrange(0, n as int));
    }
    true
}

/// Decides whether the entity created under `ent_paths` with scope level
/// `scope_level` is visible to the caller, optionally including the
/// caller's whole subtree (`with_sub`).
pub fn visible(ctx: &RbumContext, ent_paths: &Vec<u64>, scope_level: u32, with_sub: bool) -> (r:
    bool)
    ensures
        r == spec_visible(ctx.own_paths@, ent_paths@, scope_level as nat, with_sub),
{
    if is_prefix(ent_paths, &ctx.own_paths) {
        return true;
    }
    let depth = ent_paths.len();
    let keep: usize = if (scope_level as usize) <= depth {
        depth - (scope_level as usize)
    } else {
        0
    };
    if agree_on(ent_paths, &ctx.own_paths, keep) {
        return true;
    }
    if with_sub && is_prefix(&ctx.own_paths, ent_paths) {
        return true;
    }
    false
}

/// May the caller mutate an entity that lives under `ent_paths`?
pub fn is_scope_admin(ctx: &RbumContext, ent_paths: &Vec<u64>) -> (r: bool)
    ensures
        r == spec_scope_admin(ctx.own_paths@, ent_paths@),
{
    is_prefix(&ctx.own_paths, ent_paths)
}

/// Visibility is reflexive: a caller always sees entities created under
/// its own ownership path, whatever their scope level.
pub proof fn lemma_visible_reflexive(ctx: Seq<u64>, level: nat, with_sub: bool)
    ensures
        spec_visible(ctx, ctx, level, with_sub),
{
    assert(ctx =~= ctx.subrange(0, ctx.len() as int));
}

/// A scope level that reaches the root makes the entity visible to every
/// caller.
pub proof fn lemma_visible_global(ctx: Seq<u64>, ent: Seq<u64>, level: nat, with_sub: bool)
    requires
        level >= ent.len(),
    ensures
        spec_visible(ctx, ent, level, with_sub),
{
    assert(ent.subrange(0, 0) =~= Seq::<u64>::empty());
    assert(ent.subrange(0, 0) =~= ctx.subrange(0, 0));
}

/// A private entity (scope level zero) of one scope is invisible to a
/// sibling scope: with neither path a prefix of the other, no arm of the
/// rule applies.
pub proof fn lemma_private_not_visible_to_sibling(ctx: Seq<u64>, ent: Seq<u64>, with_sub: bool)
    requires
        !spec_prefix(ent, ctx),
        !(with_sub && spec_prefix(ctx, ent)),
    ensures
        !spec_visible(ctx, ent, 0, with_sub),
{
    assert(ent.subrange(0, ent.len() as int) =~= ent);
}

} // verus!

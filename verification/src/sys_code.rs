//! Fixed-width positional tree codes.
//!
//! Every category node carries a `sys_code`: one fixed-width base-36 block
//! per tree level, so that "A is an ancestor of B" is exactly "A's code is
//! a prefix of B's".  A new sibling takes the next code after its
//! predecessor; the first child of a parent appends a zero block to the
//! parent's code.  In memory a code is a vector with one numeric node per
//! level; it is rendered to its base-36 character form only at the
//! storage boundary.

use vstd::prelude::*;

use crate::result::RbumError;
use vstd::pervasive::VecAdditionalExecFns;

verus! {

/// Rendered characters per tree level.
pub const SYS_CODE_NODE_LEN: usize = 4;

/// Number of codes available per level: 36 to the power of
/// `SYS_CODE_NODE_LEN`.
pub const SYS_CODE_NODE_SPACE: u32 = 1679616;

/// A positional tree code: one node value per level, outermost level
/// first.
#[derive(Debug)]
pub struct SysCode {
    pub nodes: Vec<u32>,
}

/// Every node value fits its fixed-width block.
pub open spec fn spec_code_wf(nodes: Seq<u32>) -> bool {
    forall|i: int| 0 <= i < nodes.len() ==> nodes[i] < SYS_CODE_NODE_SPACE
}

/// `a` is a (possibly equal) prefix of `b`.
pub open spec fn spec_code_prefix(a: Seq<u32>, b: Seq<u32>) -> bool {
    a.len() <= b.len() && a == b.subrange(0, a.len() as int)
}

impl SysCode {
    pub open spec fn wf(self) -> bool {
        spec_code_wf(self.nodes@)
    }

    /// The reserved root code of the menu subtree: the zero block.
    pub fn root_menu() -> (r: SysCode)
        ensures
            r.nodes@ =~= seq![0u32],
            r.wf(),
    {
        let mut nodes: Vec<u32> = Vec::new();
        nodes.push(0);
        SysCode { nodes }
    }

    /// The reserved root code of the API subtree: the next sibling of the
    /// menu root.
    pub fn root_api() -> (r: SysCode)
        ensures
            r.nodes@ =~= seq![1u32],
            r.wf(),
    {
        let mut nodes: Vec<u32> = Vec::new();
        nodes.push(1);
        SysCode { nodes }
    }

    pub fn clone_code(&self) -> (r: SysCode)
        ensures
            r.nodes@ == self.nodes@,
    {
        let mut nodes: Vec<u32> = Vec::new();
        let n = self.nodes.len();
        let mut i: usize = 0;
        while i < n
            invariant
                n == self.nodes@.len(),
                i <= n,
                nodes@ =~= self.nodes@.subrange(0, i as int),
            decreases n - i,
        {
            nodes.push(self.nodes[i]);
            proof {
                assert(nodes@ =~= self.nodes@.subrange(0, i + 1));
            }
            i += 1;
        }
        proof {
            assert(nodes@ =~= self.nodes@);
        }
        SysCode { nodes }
    }

    /// The code of this node's first child: a zero block appended.
    pub fn first_child(&self) -> (r: SysCode)
        ensures
            r.nodes@ =~= self.nodes@.push(0u32),
            spec_code_prefix(self.nodes@, r.nodes@),
            self.wf() ==> r.wf(),
    {
        let mut c = self.clone_code();
        c.nodes.push(0);
        proof {
            assert(self.nodes@ =~= c.nodes@.subrange(0, self.nodes@.len() as int));
        }
        c
    }

    /// The next sibling code: the last block incremented.  Fails with
    /// `Conflict` when the block is exhausted, so that a sibling's code
    /// can never carry into its parent's blocks.
    pub fn next_sibling(&self) -> (r: Result<SysCode, RbumError>)
        requires
            self.nodes@.len() >= 1,
            self.wf(),
        ensures
            match r {
                Ok(c) => {
                    &&& self.nodes@[self.nodes@.len() - 1] + 1 < SYS_CODE_NODE_SPACE
                    &&& c.nodes@ =~= self.nodes@.update(
                        self.nodes@.len() - 1,
                        (self.nodes@[self.nodes@.len() - 1] + 1) as u32,
                    )
                    &&& c.wf()
                },
                Err(e) => {
                    &&& e == RbumError::Conflict
                    &&& self.nodes@[self.nodes@.len() - 1] + 1 >= SYS_CODE_NODE_SPACE
                },
            },
    {
        let n = self.nodes.len();
        let last = self.nodes[n - 1];
        if last + 1 >= SYS_CODE_NODE_SPACE {
            return Err(RbumError::Conflict);
        }
        let mut c = self.clone_code();
        c.nodes.set(n - 1, last + 1);
        Ok(c)
    }

    /// Is this code an ancestor-or-equal of `other`?
    pub fn is_prefix_of(&self, other: &SysCode) -> (r: bool)
        ensures
            r == spec_code_prefix(self.nodes@, other.nodes@),
    {
        if self.nodes.len() > other.nodes.len() {
            return false;
        }
        let n = self.nodes.len();
        let mut i: usize = 0;
        while i < n
            invariant
                n == self.nodes@.len(),
                n <= other.nodes@.len(),
                i <= n,
                forall|k: int| 0 <= k < i ==> self.nodes@[k] == other.nodes@[k],
            decreases n - i,
        {
            if self.nodes[i] != other.nodes[i] {
                proof {
                    assert(self.nodes@ != other.nodes@.subrange(0, n as int));
                }
                return false;
            }
            i += 1;
        }
        proof {
            assert(self.nodes@ =~= other.nodes@.subrange(0, n as int));
        }
        true
    }

    /// Do two codes denote the same tree position?
    pub fn same_as(&self, other: &SysCode) -> (r: bool)
        ensures
            r == (self.nodes@ == other.nodes@),
    {
        if self.nodes.len() != other.nodes.len() {
            proof {
                assert(self.nodes@.len() != other.nodes@.len());
            }
            return false;
        }
        let r = self.is_prefix_of(other);
        proof {
            assert(other.nodes@.subrange(0, self.nodes@.len() as int) =~= other.nodes@);
            if r {
                assert(self.nodes@ =~= other.nodes@);
            }
        }
        r
    }
}

/// Rendered character of one base-36 digit: `0`-`9` then `a`-`z`.
pub open spec fn spec_digit_char(d: u32) -> char {
    if d < 10 {
        ((d + 48) as u8) as char
    } else {
        ((d + 87) as u8) as char
    }
}

/// The four characters of one node block, most significant digit first.
pub open spec fn spec_node_chars(n: u32) -> Seq<char> {
    seq![
        spec_digit_char((n / 46656) % 36),
        spec_digit_char((n / 1296) % 36),
        spec_digit_char((n / 36) % 36),
        spec_digit_char(n % 36),
    ]
}

/// The rendered form of a whole code: the blocks of its nodes in order.
pub open spec fn spec_render(nodes: Seq<u32>) -> Seq<char>
    decreases nodes.len(),
{
    if nodes.len() == 0 {
        Seq::<char>::empty()
    } else {
        spec_node_chars(nodes[0]) + spec_render(nodes.skip(1))
    }
}

/// Rendering a code one node longer appends that node's block.
pub proof fn lemma_render_push(s: Seq<u32>, x: u32)
    ensures
        spec_render(s.push(x)) =~= spec_render(s) + spec_node_chars(x),
    decreases s.len(),
{
    if s.len() == 0 {
        assert(s.push(x).skip(1) =~= Seq::<u32>::empty());
        assert(s.push(x)[0] == x);
        assert(spec_render(s.push(x)) == spec_node_chars(x) + spec_render(s.push(x).skip(1)));
        assert(spec_render(Seq::<u32>::empty()) =~= Seq::<char>::empty());
        assert(spec_render(s.push(x)) =~= spec_node_chars(x));
    } else {
        assert(s.push(x).skip(1) =~= s.skip(1).push(x));
        lemma_render_push(s.skip(1), x);
    }
}

/// The single-character form of one base-36 digit.
pub(crate) fn digit_str(d: u32) -> (r: &'static str)
    requires
        d < 36,
    ensures
        r@ =~= seq![spec_digit_char(d)],
{
    let r: &'static str = match d {
        0 => "0",
        1 => "1",
        2 => "2",
        3 => "3",
        4 => "4",
        5 => "5",
        6 => "6",
        7 => "7",
        8 => "8",
        9 => "9",
        10 => "a",
        11 => "b",
        12 => "c",
        13 => "d",
        14 => "e",
        15 => "f",
        16 => "g",
        17 => "h",
        18 => "i",
        19 => "j",
        20 => "k",
        21 => "l",
        22 => "m",
        23 => "n",
        24 => "o",
        25 => "p",
        26 => "q",
        27 => "r",
        28 => "s",
        29 => "t",
        30 => "u",
        31 => "v",
        32 => "w",
        33 => "x",
        34 => "y",
        _ => "z",
    };
    proof {
        reveal_strlit("0");
        reveal_strlit("1");
        reveal_strlit("2");
        reveal_strlit("3");
        reveal_strlit("4");
        reveal_strlit("5");
        reveal_strlit("6");
        reveal_strlit("7");
        reveal_strlit("8");
        reveal_strlit("9");
        reveal_strlit("a");
        reveal_strlit("b");
        reveal_strlit("c");
        reveal_strlit("d");
        reveal_strlit("e");
        reveal_strlit("f");
        reveal_strlit("g");
        reveal_strlit("h");
        reveal_strlit("i");
        reveal_strlit("j");
        reveal_strlit("k");
        reveal_strlit("l");
        reveal_strlit("m");
        reveal_strlit("n");
        reveal_strlit("o");
        reveal_strlit("p");
        reveal_strlit("q");
        reveal_strlit("r");
        reveal_strlit("s");
        reveal_strlit("t");
        reveal_strlit("u");
        reveal_strlit("v");
        reveal_strlit("w");
        reveal_strlit("x");
        reveal_strlit("y");
        reveal_strlit("z");
    }
    r
}

impl SysCode {
    /// The base-36 character form of this code, written only at the
    /// storage boundary.
    pub fn render(&self) -> (r: String)
        requires
            self.wf(),
        ensures
            r@ =~= spec_render(self.nodes@),
    {
        let mut out = String::new();
        let n = self.nodes.len();
        let mut i: usize = 0;
        while i < n
            invariant
                n == self.nodes@.len(),
                i <= n,
                spec_code_wf(self.nodes@),
                out@ =~= spec_render(self.nodes@.subrange(0, i as int)),
            decreases n - i,
        {
            let v = self.nodes[i];
            let ghost before = out@;
            out.append(digit_str((v / 46656) % 36));
            out.append(digit_str((v / 1296) % 36));
            out.append(digit_str((v / 36) % 36));
            out.append(digit_str(v % 36));
            proof {
                assert(out@ =~= before + spec_node_chars(v));
                lemma_render_push(self.nodes@.subrange(0, i as int), v);
                assert(self.nodes@.subrange(0, i as int).push(v) =~= self.nodes@.subrange(
                    0,
                    i + 1,
                ));
            }
            i += 1;
        }
        proof {
            assert(self.nodes@.subrange(0, n as int) =~= self.nodes@);
        }
        out
    }
}

/// A rendered code has one fixed-width block per level.
pub proof fn lemma_render_len(nodes: Seq<u32>)
    ensures
        spec_render(nodes).len() == SYS_CODE_NODE_LEN * nodes.len(),
    decreases nodes.len(),
{
    if nodes.len() > 0 {
        lemma_render_len(nodes.skip(1));
    }
}

/// Node-level prefixes render to character-level prefixes: if A's code is
/// a prefix of B's, A's rendered code starts B's rendered code.
pub proof fn lemma_render_prefix(a: Seq<u32>, b: Seq<u32>)
    requires
        spec_code_prefix(a, b),
    ensures
        spec_render(b).subrange(0, spec_render(a).len() as int) =~= spec_render(a),
    decreases a.len(),
{
    lemma_render_len(a);
    lemma_render_len(b);
    if a.len() == 0 {
    } else {
        assert(a[0] == b[0]);
        assert(spec_code_prefix(a.skip(1), b.skip(1))) by {
            assert(a.skip(1) =~= b.skip(1).subrange(0, a.len() - 1)) by {
                assert forall|i: int| 0 <= i < a.len() - 1 implies a.skip(1)[i] == b.skip(1)[i]
                by {
                    assert(a[i + 1] == b.subrange(0, a.len() as int)[i + 1]);
                }
            }
        }
        lemma_render_prefix(a.skip(1), b.skip(1));
        lemma_render_len(a.skip(1));
        lemma_render_len(b.skip(1));
        assert(spec_render(b).subrange(0, spec_render(a).len() as int) =~= spec_render(a));
    }
}

} // verus!

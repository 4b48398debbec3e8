//! Size and alignment of a block of memory, and how a cell's header and
//! payload are laid out one after the other.
use vstd::prelude::*;

verus! {

/// The largest size a layout may have, rounded up to its alignment.
pub const MAX_SIZE: usize = isize::MAX as usize;

/// `n` is a power of two.
pub open spec fn is_pow2(n: nat) -> bool
    decreases n,
{
    if n == 1 {
        true
    } else if n >= 2 && n % 2 == 0 {
        is_pow2(n / 2)
    } else {
        false
    }
}

/// A size and an alignment that a block can be allocated with: the alignment
/// is a power of two and the size, rounded up to it, does not exceed `MAX_SIZE`.
pub open spec fn valid_layout(size: nat, align: nat) -> bool {
    &&& is_pow2(align)
    &&& size + align <= MAX_SIZE + 1
}

/// `x` rounded up to the next multiple of `a`.
pub open spec fn round_up(x: nat, a: nat) -> nat
    recommends
        a > 0,
{
    if x % a == 0 {
        x
    } else {
        (x + (a - x % a)) as nat
    }
}

pub open spec fn max_nat(a: nat, b: nat) -> nat {
    if a >= b {
        a
    } else {
        b
    }
}

/// Size and alignment of a block.
#[derive(Clone, Copy, Debug, PartialEq, Eq)]
pub struct Layout {
    size: usize,
    align: usize,
}

impl Layout {
    pub closed spec fn size_spec(&self) -> usize {
        self.size
    }

    pub closed spec fn align_spec(&self) -> usize {
        self.align
    }

    /// Every value of this type satisfies this.
    pub open spec fn wf(&self) -> bool {
        valid_layout(self.size_spec() as nat, self.align_spec() as nat)
    }

    #[verifier::when_used_as_spec(size_spec)]
    pub fn size(&self) -> (r: usize)
        ensures
            r == self.size_spec(),
    {
        self.size
    }

    #[verifier::when_used_as_spec(align_spec)]
    pub fn align(&self) -> (r: usize)
        ensures
            r == self.align_spec(),
    {
        self.align
    }

    /// The layout with the given size and alignment, where those form a valid
    /// layout.
    pub fn from_size_align(size: usize, align: usize) -> (r: Option<Layout>)
        ensures
            r.is_some() <==> valid_layout(size as nat, align as nat),
            r matches Some(l) ==> l.size() == size && l.align() == align && l.wf(),
    {
        if !check_pow2(align) || align - 1 > MAX_SIZE || size > MAX_SIZE - (align - 1) {
            None
        } else {
            Some(Layout { size, align })
        }
    }

    /// The layout of a block holding `self` followed by `next`, and the offset
    /// of `next` in it: `next` starts at the first multiple of its alignment
    /// at or after the end of `self`. `None` where that block is no valid
    /// layout.
    pub fn extend(&self, next: &Layout) -> (r: Option<(Layout, usize)>)
        requires
            self.wf(),
            next.wf(),
        ensures
            ({
                let offset = round_up(self.size() as nat, next.align() as nat);
                let align = max_nat(self.align() as nat, next.align() as nat);
                &&& r.is_some() <==> valid_layout((offset + next.size()) as nat, align)
                &&& r matches Some((l, off)) ==> {
                    &&& off == offset
                    &&& l.size() == offset + next.size()
                    &&& l.align() == align
                    &&& l.wf()
                }
            }),
    {
        let a = next.align;
        let x = self.size;
        assert(x % a < a) by (nonlinear_arith)
            requires
                a > 0,
        ;
        let rem = x % a;
        let offset: usize = if rem == 0 {
            x
        } else {
            x + (a - rem)
        };
        let new_align = if self.align >= next.align {
            self.align
        } else {
            next.align
        };
        if offset > MAX_SIZE || next.size > MAX_SIZE - offset {
            return None;
        }
        let size = offset + next.size;
        if new_align - 1 > MAX_SIZE || size > MAX_SIZE - (new_align - 1) {
            return None;
        }
        Some((Layout { size, align: new_align }, offset))
    }
}

/// Size of a cell header made of `words` machine words.
pub open spec fn header_size(words: nat) -> nat {
    words * vstd::layout::size_of::<usize>()
}

/// Alignment of a cell header.
pub open spec fn header_align() -> nat {
    vstd::layout::align_of::<usize>()
}

/// Offset of the payload in a cell whose header has `words` words.
pub open spec fn cell_offset(words: nat, body: Layout) -> nat {
    round_up(header_size(words), body.align() as nat)
}

/// A cell with a header of `words` words followed by a payload of layout
/// `body` can be allocated.
pub open spec fn cell_fits(words: nat, body: Layout) -> bool {
    &&& valid_layout(header_size(words), header_align())
    &&& valid_layout((cell_offset(words, body) + body.size()) as nat, max_nat(header_align(), body.align() as nat))
}

/// The layout of a cell whose header has `words` machine words and whose
/// payload has layout `body`, with the payload's offset in it.
pub fn cell_layout(words: usize, body: &Layout) -> (r: Option<(Layout, usize)>)
    requires
        body.wf(),
    ensures
        r.is_some() <==> cell_fits(words as nat, *body),
        r matches Some((l, off)) ==> {
            &&& off == cell_offset(words as nat, *body)
            &&& l.size() == off + body.size()
            &&& l.align() == max_nat(header_align(), body.align() as nat)
            &&& l.wf()
        },
{
    let w = core::mem::size_of::<usize>();
    let size = match words.checked_mul(w) {
        Some(s) => s,
        None => {
            assert(header_size(words as nat) > usize::MAX) by (nonlinear_arith)
                requires
                    words * w > usize::MAX,
                    w == vstd::layout::size_of::<usize>(),
            ;
            return None;
        },
    };
    let header = match Layout::from_size_align(size, core::mem::align_of::<usize>()) {
        Some(h) => h,
        None => return None,
    };
    header.extend(body)
}

/// Whether `n` is a power of two.
fn check_pow2(n: usize) -> (r: bool)
    ensures
        r == is_pow2(n as nat),
{
    if n == 0 {
        return false;
    }
    let mut m: usize = n;
    while m % 2 == 0
        invariant
            m >= 1,
            is_pow2(m as nat) == is_pow2(n as nat),
        decreases m,
    {
        m = m / 2;
    }
    m == 1
}

} // verus!

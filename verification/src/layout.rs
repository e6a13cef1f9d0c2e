//! Layout descriptors: how many bytes a region takes and how it must be
//! aligned.

use vstd::layout::{align_of, layout_for_type_is_valid, size_of, valid_layout};
use vstd::prelude::*;

verus! {

/// The number of bytes to add after `size` bytes so that what follows starts
/// at a multiple of `align`.
pub open spec fn padding(size: int, align: int) -> int {
    if size % align == 0 {
        0
    } else {
        align - size % align
    }
}

/// The largest size that a layout with alignment `align` may have.
pub open spec fn max_size(align: int) -> int {
    isize::MAX - (isize::MAX as int % align)
}

/// The size and alignment of a region.
#[derive(Clone, Copy, Debug)]
pub struct Layout {
    size: usize,
    align: usize,
}

/// A record made of a first part and a second part placed after it.
pub ghost struct Extended {
    /// The size of the whole record, without padding after the second part.
    pub size: int,
    /// The alignment of the whole record.
    pub align: int,
    /// Where the second part starts.
    pub offset: int,
}

/// The record of a part of `size` and `align` followed by a part of
/// `next_size` and `next_align`, which starts at the next multiple of its
/// alignment.
pub open spec fn extended(size: int, align: int, next_size: int, next_align: int) -> Extended {
    let offset = size + padding(size, next_align);
    Extended {
        size: offset + next_size,
        align: if align >= next_align {
            align
        } else {
            next_align
        },
        offset,
    }
}

impl Layout {
    /// The size in bytes.
    pub closed spec fn spec_size(&self) -> usize {
        self.size
    }

    /// The alignment in bytes.
    pub closed spec fn spec_align(&self) -> usize {
        self.align
    }

    #[verifier::type_invariant]
    spec fn valid(&self) -> bool {
        valid_layout(self.size, self.align) && self.align > 0
    }

    /// The size in bytes. It fits its alignment: rounded up to a multiple of
    /// the alignment it does not exceed `isize::MAX`.
    #[verifier::when_used_as_spec(spec_size)]
    pub fn size(&self) -> (n: usize)
        ensures
            n == self.spec_size(),
            valid_layout(self.spec_size(), self.spec_align()),
    {
        proof {
            use_type_invariant(self);
        }
        self.size
    }

    /// The alignment in bytes: a power of two.
    #[verifier::when_used_as_spec(spec_align)]
    pub fn align(&self) -> (n: usize)
        ensures
            n == self.spec_align(),
            n > 0,
            valid_layout(self.spec_size(), self.spec_align()),
    {
        proof {
            use_type_invariant(self);
        }
        self.align
    }

    /// The layout of a value of type `T`.
    pub fn new<T>() -> (r: Self)
        ensures
            r.size() == size_of::<T>(),
            r.align() == align_of::<T>(),
    {
        layout_for_type_is_valid::<T>();
        Layout { size: core::mem::size_of::<T>(), align: core::mem::align_of::<T>() }
    }

    /// The layout of a run of `n` values of type `T`, where its size fits.
    pub fn array<T>(n: usize) -> (r: Option<Self>)
        ensures
            r is Some == (n * size_of::<T>() <= max_size(align_of::<T>() as int)),
            r matches Some(l) ==> l.size() == n * size_of::<T>() && l.align() == align_of::<T>(),
    {
        layout_for_type_is_valid::<T>();
        let size = core::mem::size_of::<T>();
        let align = core::mem::align_of::<T>();
        let limit = (isize::MAX as usize) - (isize::MAX as usize) % align;
        match n.checked_mul(size) {
            Some(total) => {
                if total <= limit {
                    Some(Layout { size: total, align })
                } else {
                    None
                }
            },
            None => None,
        }
    }

    /// The layout of this region followed by `next`, with the padding that
    /// `next` needs before it, and the offset at which `next` starts. There
    /// is none where the size of the whole does not fit.
    pub fn extend(&self, next: Layout) -> (r: Option<(Layout, usize)>)
        ensures
            ({
                let e = extended(
                    self.size() as int,
                    self.align() as int,
                    next.size() as int,
                    next.align() as int,
                );
                &&& r is Some == (e.size <= max_size(e.align))
                &&& r matches Some((l, offset)) ==> l.size() == e.size && l.align() == e.align
                    && offset == e.offset
            }),
    {
        proof {
            use_type_invariant(self);
            use_type_invariant(&next);
        }
        let align = if self.align >= next.align {
            self.align
        } else {
            next.align
        };
        let rem = self.size % next.align;
        let pad = if rem == 0 {
            0
        } else {
            next.align - rem
        };
        let limit = (isize::MAX as usize) - (isize::MAX as usize) % align;
        match self.size.checked_add(pad) {
            Some(offset) => match offset.checked_add(next.size) {
                Some(size) => {
                    if size <= limit {
                        Some((Layout { size, align }, offset))
                    } else {
                        None
                    }
                },
                None => None,
            },
            None => None,
        }
    }

    /// This layout with its size rounded up to a multiple of its alignment.
    pub fn pad_to_align(&self) -> (r: Layout)
        ensures
            r.align() == self.align(),
            r.size() == self.size() + padding(self.size() as int, self.align() as int),
            r.size() % r.align() == 0,
    {
        proof {
            use_type_invariant(self);
        }
        let rem = self.size % self.align;
        if rem == 0 {
            *self
        } else {
            let limit = (isize::MAX as usize) - (isize::MAX as usize) % self.align;
            assert(limit % self.align == 0) by (nonlinear_arith)
                requires
                    limit == isize::MAX as usize - (isize::MAX as usize) % self.align,
                    self.align > 0,
            ;
            assert(self.size - rem + self.align <= limit) by (nonlinear_arith)
                requires
                    rem == self.size % self.align,
                    0 < rem,
                    self.align > 0,
                    self.size <= limit,
                    limit % self.align == 0,
            ;
            let size = self.size + (self.align - rem);
            assert(size % self.align == 0) by (nonlinear_arith)
                requires
                    rem == self.size % self.align,
                    size == self.size + (self.align - rem),
                    self.align > 0,
            ;
            Layout { size, align: self.align }
        }
    }
}

} // verus!

//! Home of the [`Rectangle`] type.

use vstd::prelude::*;

verus! {

/// The number from 0 to 65535 that differs from `x` by a multiple of 65536.
pub open spec fn wrap_u16(x: int) -> u16 {
    (x % 0x1_0000) as u16
}

/// The number from -32768 to 32767 that differs from `x` by a multiple of 65536.
pub open spec fn wrap_i16(x: int) -> i16 {
    if x % 0x1_0000 > i16::MAX {
        (x % 0x1_0000 - 0x1_0000) as i16
    } else {
        (x % 0x1_0000) as i16
    }
}

/// Represents a 2D rectangle.
#[derive(Copy, Clone, PartialEq, Eq, Structural, Debug)]
pub struct Rectangle {
    pub top: i16,
    pub left: i16,
    pub bottom: i16,
    pub right: i16,
}

/// Keeping the lower 16 bits of a difference of two 16-bit numbers wraps the difference.
proof fn lemma_truncate_difference(d: i32)
    requires
        -0x1_0000 < d < 0x1_0000,
    ensures
        d as u16 == wrap_u16(d as int),
{
    assert(-0x1_0000i32 < d && d < 0i32 ==> d as u16 == (d + 0x1_0000i32) as u16) by (bit_vector);
    assert(0i32 <= d && d < 0x1_0000i32 ==> (d as u16) as i32 == d) by (bit_vector);
    if d < 0 {
        let e: i32 = (d + 0x1_0000) as i32;
        assert((e as u16) as i32 == e);
    }
}

/// Two numbers that differ by a multiple of 65536 wrap to the same number.
pub proof fn lemma_wrap_congruent(x: int, y: int)
    requires
        (x - y) % 0x1_0000 == 0,
    ensures
        wrap_u16(x) == wrap_u16(y),
        wrap_i16(x) == wrap_i16(y),
{
    let k = (x - y) / 0x1_0000;
    assert(x == 0x1_0000 * k + y);
    vstd::arithmetic::div_mod::lemma_mod_multiples_vanish(k, y, 0x1_0000);
}

/// A number and what it wraps to differ by a multiple of 65536.
pub proof fn lemma_wrap_i16_differs(x: int)
    ensures
        (wrap_i16(x) - x) % 0x1_0000 == 0,
{
    let k = x / 0x1_0000;
    assert(x % 0x1_0000 - x == 0x1_0000 * (-k) + 0);
    vstd::arithmetic::div_mod::lemma_mod_multiples_vanish(-k, 0, 0x1_0000);
    assert(x % 0x1_0000 - 0x1_0000 - x == 0x1_0000 * (-k - 1) + 0);
    vstd::arithmetic::div_mod::lemma_mod_multiples_vanish(-k - 1, 0, 0x1_0000);
}

/// The difference of two multiples of 65536 is one.
proof fn lemma_difference_of_multiples(x: int, y: int)
    requires
        x % 0x1_0000 == 0,
        y % 0x1_0000 == 0,
    ensures
        (x - y) % 0x1_0000 == 0,
{
    let k = x / 0x1_0000 - y / 0x1_0000;
    assert(x - y == 0x1_0000 * k + 0);
    vstd::arithmetic::div_mod::lemma_mod_multiples_vanish(k, 0, 0x1_0000);
}

/// Adding two 16-bit numbers with wrapping gives what their sum wraps to.
proof fn lemma_wrapping_add(a: i16, b: i16)
    ensures
        vstd::wrapping::i16_specs::wrapping_add(a, b) == wrap_i16(a + b),
{
    let sum = a + b;
    if sum < 0 {
        assert(sum == 0x1_0000 * (-1) + (sum + 0x1_0000));
        vstd::arithmetic::div_mod::lemma_fundamental_div_mod_converse(
            sum,
            0x1_0000,
            -1,
            sum + 0x1_0000,
        );
    } else {
        vstd::arithmetic::div_mod::lemma_fundamental_div_mod_converse(sum, 0x1_0000, 0, sum);
    }
}

impl Rectangle {
    /// The width: `right` less `left`, wrapped to 16 bits.
    pub open spec fn spec_width(self) -> u16 {
        wrap_u16(self.right - self.left)
    }

    /// The height: `bottom` less `top`, wrapped to 16 bits.
    pub open spec fn spec_height(self) -> u16 {
        wrap_u16(self.bottom - self.top)
    }

    /// The rectangle moved by `down` and `right`, each side wrapped to 16 bits.
    pub open spec fn moved(self, down: int, right: int) -> Rectangle {
        Rectangle {
            top: wrap_i16(self.top + down),
            left: wrap_i16(self.left + right),
            bottom: wrap_i16(self.bottom + down),
            right: wrap_i16(self.right + right),
        }
    }

    /// Create a rectangle at (0,0) in the top-left corner with the given width and height.
    pub fn from_width_and_height(width: i16, height: i16) -> (r: Self)
        ensures
            r == (Rectangle { top: 0, left: 0, bottom: height, right: width }),
    {
        Rectangle { top: 0, left: 0, bottom: height, right: width }
    }

    /// Get the width of the rectangle.
    pub fn width(self) -> (r: u16)
        ensures
            r == self.spec_width(),
    {
        let d: i32 = self.right as i32 - self.left as i32;
        proof {
            lemma_truncate_difference(d);
        }
        #[verifier::truncate]
        (d as u16)
    }

    /// Get the height of the rectangle.
    pub fn height(self) -> (r: u16)
        ensures
            r == self.spec_height(),
    {
        let d: i32 = self.bottom as i32 - self.top as i32;
        proof {
            lemma_truncate_difference(d);
        }
        #[verifier::truncate]
        (d as u16)
    }

    /// Center a rectangle inside a rectangle.
    ///
    /// The rectangle is moved by the difference of the half widths and of the half heights
    /// of the two: where both have their top-left corner at (0,0), it comes to lie in the
    /// middle of `what`.
    pub fn centered_inside(self, what: Rectangle) -> (r: Self)
        ensures
            r == self.moved(
                what.spec_height() / 2 - self.spec_height() / 2,
                what.spec_width() / 2 - self.spec_width() / 2,
            ),
    {
        let left_offset: i32 = ((what.width() / 2) as i32) - ((self.width() / 2) as i32);
        let top_offset: i32 = ((what.height() / 2) as i32) - ((self.height() / 2) as i32);
        proof {
            lemma_wrapping_add(self.top, top_offset as i16);
            lemma_wrapping_add(self.left, left_offset as i16);
            lemma_wrapping_add(self.bottom, top_offset as i16);
            lemma_wrapping_add(self.right, left_offset as i16);
        }
        Rectangle {
            top: self.top.wrapping_add(top_offset as i16),
            left: self.left.wrapping_add(left_offset as i16),
            bottom: self.bottom.wrapping_add(top_offset as i16),
            right: self.right.wrapping_add(left_offset as i16),
        }
    }

    /// Moving a rectangle changes neither its width nor its height.
    pub proof fn lemma_moved_keeps_size(self, down: int, right: int)
        ensures
            self.moved(down, right).spec_width() == self.spec_width(),
            self.moved(down, right).spec_height() == self.spec_height(),
    {
        lemma_wrap_i16_differs(self.top + down);
        lemma_wrap_i16_differs(self.left + right);
        lemma_wrap_i16_differs(self.bottom + down);
        lemma_wrap_i16_differs(self.right + right);
        let m = self.moved(down, right);
        assert(((m.right - m.left) - (self.right - self.left)) % 0x1_0000 == 0) by {
            lemma_difference_of_multiples(
                m.right - (self.right + right),
                m.left - (self.left + right),
            );
        }
        assert(((m.bottom - m.top) - (self.bottom - self.top)) % 0x1_0000 == 0) by {
            lemma_difference_of_multiples(
                m.bottom - (self.bottom + down),
                m.top - (self.top + down),
            );
        }
        lemma_wrap_congruent(m.right - m.left, self.right - self.left);
        lemma_wrap_congruent(m.bottom - m.top, self.bottom - self.top);
    }
}

impl Default for Rectangle {
    /// The rectangle with every side at 0.
    fn default() -> (r: Self)
        ensures
            r == (Rectangle { top: 0, left: 0, bottom: 0, right: 0 }),
    {
        Rectangle { top: 0, left: 0, bottom: 0, right: 0 }
    }
}

} // verus!

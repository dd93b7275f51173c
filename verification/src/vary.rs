//! Configurations that the optimizers can enumerate and mutate field by field.

use vstd::prelude::*;

verus! {

/// An aspect of a character model that can vary, aside from the choice of gear prefixes.
///
/// A value is seen as a row of numbered fields.  Field `i` holds one of `arity()[i]` values,
/// numbered from zero; `fields()[i]` is the one it holds now.
///
/// The specification functions say what the four operations compute.  An implementation that
/// is verified defines them; as they stand they describe a value without fields.
pub trait Vary: Sized {
    /// The value can be enumerated: its fields can be counted in a `usize`.
    open spec fn wf(&self) -> bool {
        true
    }

    /// Number of values that each field can take.
    open spec fn arity(&self) -> Seq<u16> {
        Seq::empty()
    }

    /// The value that each field holds.
    open spec fn fields(&self) -> Seq<u16> {
        Seq::empty()
    }

    /// The value with `field` holding `value` and the other fields as they are.
    open spec fn with_field(&self, field: int, value: u16) -> Self {
        *self
    }

    /// Number of fields.
    fn num_fields(&self) -> (n: usize)
        requires
            self.wf(),
        ensures
            n == self.arity().len(),
            n == self.fields().len(),
    ;

    /// Number of values that `field` can take: at least one, the value that it holds.
    fn num_field_values(&self, field: usize) -> (n: u16)
        requires
            self.wf(),
            field < self.arity().len(),
        ensures
            n == self.arity()[field as int],
            n > 0,
    ;

    /// The value that `field` holds.
    fn get_field(&self, field: usize) -> (value: u16)
        requires
            self.wf(),
            field < self.arity().len(),
        ensures
            value == self.fields()[field as int],
            value < self.arity()[field as int],
    ;

    /// Makes `field` hold `value` and leaves the other fields as they are.
    fn set_field(&mut self, field: usize, value: u16)
        requires
            old(self).wf(),
            field < old(self).arity().len(),
            value < old(self).arity()[field as int],
        ensures
            *final(self) == old(self).with_field(field as int, value),
            final(self).wf(),
            final(self).arity() == old(self).arity(),
            final(self).fields() == old(self).fields().update(field as int, value),
    ;
}

/// Updating a position in the first part of a concatenation updates the first part.
pub proof fn lemma_update_front(a: Seq<u16>, b: Seq<u16>, i: int, v: u16)
    requires
        0 <= i < a.len(),
    ensures
        (a + b).update(i, v) == a.update(i, v) + b,
{
    assert((a + b).update(i, v) =~= a.update(i, v) + b);
}

/// Updating a position in the second part of a concatenation updates the second part.
pub proof fn lemma_update_back(a: Seq<u16>, b: Seq<u16>, i: int, v: u16)
    requires
        a.len() <= i < a.len() + b.len(),
    ensures
        (a + b).update(i, v) == a + b.update(i - a.len(), v),
{
    assert((a + b).update(i, v) =~= a + b.update(i - a.len(), v));
}

/// The empty tuple has no fields.
impl Vary for () {
    fn num_fields(&self) -> (n: usize) {
        0
    }

    fn num_field_values(&self, field: usize) -> (n: u16) {
        0
    }

    fn get_field(&self, field: usize) -> (value: u16) {
        0
    }

    fn set_field(&mut self, field: usize, value: u16) {
    }
}


/// A tuple of one value has the fields of the value.
impl<A: Vary> Vary for (A,) {
    open spec fn wf(&self) -> bool {
        self.0.wf() && self.0.fields().len() == self.0.arity().len()
    }

    open spec fn arity(&self) -> Seq<u16> {
        self.0.arity()
    }

    open spec fn fields(&self) -> Seq<u16> {
        self.0.fields()
    }

    open spec fn with_field(&self, field: int, value: u16) -> Self {
        (self.0.with_field(field, value),)
    }

    fn num_fields(&self) -> (n: usize) {
        self.0.num_fields()
    }

    fn num_field_values(&self, field: usize) -> (n: u16) {
        self.0.num_field_values(field)
    }

    fn get_field(&self, field: usize) -> (value: u16) {
        self.0.get_field(field)
    }

    fn set_field(&mut self, field: usize, value: u16) {
        self.0.set_field(field, value);
    }
}

/// Number of fields of the two values together.
fn num_fields_2<A: Vary, B: Vary>(a: &A, b: &B) -> (n: usize)
    requires
        ({
            let all = (*a, *b);
            all.wf()
        }),
    ensures
        ({
            let all = (*a, *b);
            n == all.arity().len() && n == all.fields().len()
        }),
{
    let n0 = a.num_fields();
    let rest = b.num_fields();
    n0 + rest
}

/// Number of values that `field` of the two values together can take.
fn num_field_values_2<A: Vary, B: Vary>(a: &A, b: &B, field: usize) -> (n: u16)
    requires
        ({
            let all = (*a, *b);
            all.wf() && field < all.arity().len()
        }),
    ensures
        ({
            let all = (*a, *b);
            n == all.arity()[field as int] && n > 0
        }),
{
    let n0 = a.num_fields();
    if field < n0 {
        a.num_field_values(field)
    } else {
        b.num_field_values(field - n0)
    }
}

/// The value that `field` of the two values together holds.
fn get_field_2<A: Vary, B: Vary>(a: &A, b: &B, field: usize) -> (value: u16)
    requires
        ({
            let all = (*a, *b);
            all.wf() && field < all.arity().len()
        }),
    ensures
        ({
            let all = (*a, *b);
            value == all.fields()[field as int] && value < all.arity()[field as int]
        }),
{
    let n0 = a.num_fields();
    if field < n0 {
        a.get_field(field)
    } else {
        b.get_field(field - n0)
    }
}

/// Makes `field` of the two values together hold `value`.
fn set_field_2<A: Vary, B: Vary>(a: &mut A, b: &mut B, field: usize, value: u16)
    requires
        ({
            let before = (*old(a), *old(b));
            &&& before.wf()
            &&& field < before.arity().len()
            &&& value < before.arity()[field as int]
        }),
    ensures
        ({
            let before = (*old(a), *old(b));
            let after = (*final(a), *final(b));
            &&& after == before.with_field(field as int, value)
            &&& after.wf()
            &&& after.arity() == before.arity()
            &&& after.fields() == before.fields().update(field as int, value)
        }),
{
    let ghost rest = (*old(b),).fields();
    let n0 = a.num_fields();
    if field < n0 {
        a.set_field(field, value);
        proof {
            lemma_update_front(old(a).fields(), rest, field as int, value);
        }
    } else {
        b.set_field(field - n0, value);
        proof {
            lemma_update_back(old(a).fields(), rest, field as int, value);
        }
    }
}

/// A tuple of two values has the fields of the first value, then those of the others.
impl<A: Vary, B: Vary> Vary for (A, B) {
    open spec fn wf(&self) -> bool {
        &&& self.0.wf()
        &&& self.0.fields().len() == self.0.arity().len()
        &&& (self.1,).wf()
        &&& self.arity().len() <= usize::MAX
    }

    open spec fn arity(&self) -> Seq<u16> {
        self.0.arity() + (self.1,).arity()
    }

    open spec fn fields(&self) -> Seq<u16> {
        self.0.fields() + (self.1,).fields()
    }

    open spec fn with_field(&self, field: int, value: u16) -> Self {
        if field < self.0.arity().len() {
            (self.0.with_field(field, value), self.1)
        } else {
            let rest = (self.1,).with_field(field - self.0.arity().len(), value);
            (self.0, rest.0)
        }
    }

    fn num_fields(&self) -> (n: usize) {
        num_fields_2(&self.0, &self.1)
    }

    fn num_field_values(&self, field: usize) -> (n: u16) {
        num_field_values_2(&self.0, &self.1, field)
    }

    fn get_field(&self, field: usize) -> (value: u16) {
        get_field_2(&self.0, &self.1, field)
    }

    fn set_field(&mut self, field: usize, value: u16) {
        set_field_2(&mut self.0, &mut self.1, field, value);
    }
}

/// Number of fields of the three values together.
fn num_fields_3<A: Vary, B: Vary, C: Vary>(a: &A, b: &B, c: &C) -> (n: usize)
    requires
        ({
            let all = (*a, *b, *c);
            all.wf()
        }),
    ensures
        ({
            let all = (*a, *b, *c);
            n == all.arity().len() && n == all.fields().len()
        }),
{
    let n0 = a.num_fields();
    let rest = num_fields_2(b, c);
    n0 + rest
}

/// Number of values that `field` of the three values together can take.
fn num_field_values_3<A: Vary, B: Vary, C: Vary>(a: &A, b: &B, c: &C, field: usize) -> (n: u16)
    requires
        ({
            let all = (*a, *b, *c);
            all.wf() && field < all.arity().len()
        }),
    ensures
        ({
            let all = (*a, *b, *c);
            n == all.arity()[field as int] && n > 0
        }),
{
    let n0 = a.num_fields();
    if field < n0 {
        a.num_field_values(field)
    } else {
        num_field_values_2(b, c, field - n0)
    }
}

/// The value that `field` of the three values together holds.
fn get_field_3<A: Vary, B: Vary, C: Vary>(a: &A, b: &B, c: &C, field: usize) -> (value: u16)
    requires
        ({
            let all = (*a, *b, *c);
            all.wf() && field < all.arity().len()
        }),
    ensures
        ({
            let all = (*a, *b, *c);
            value == all.fields()[field as int] && value < all.arity()[field as int]
        }),
{
    let n0 = a.num_fields();
    if field < n0 {
        a.get_field(field)
    } else {
        get_field_2(b, c, field - n0)
    }
}

/// Makes `field` of the three values together hold `value`.
fn set_field_3<A: Vary, B: Vary, C: Vary>(a: &mut A, b: &mut B, c: &mut C, field: usize, value: u16)
    requires
        ({
            let before = (*old(a), *old(b), *old(c));
            &&& before.wf()
            &&& field < before.arity().len()
            &&& value < before.arity()[field as int]
        }),
    ensures
        ({
            let before = (*old(a), *old(b), *old(c));
            let after = (*final(a), *final(b), *final(c));
            &&& after == before.with_field(field as int, value)
            &&& after.wf()
            &&& after.arity() == before.arity()
            &&& after.fields() == before.fields().update(field as int, value)
        }),
{
    let ghost rest = (*old(b), *old(c)).fields();
    let n0 = a.num_fields();
    if field < n0 {
        a.set_field(field, value);
        proof {
            lemma_update_front(old(a).fields(), rest, field as int, value);
        }
    } else {
        set_field_2(b, c, field - n0, value);
        proof {
            lemma_update_back(old(a).fields(), rest, field as int, value);
        }
    }
}

/// A tuple of three values has the fields of the first value, then those of the others.
impl<A: Vary, B: Vary, C: Vary> Vary for (A, B, C) {
    open spec fn wf(&self) -> bool {
        &&& self.0.wf()
        &&& self.0.fields().len() == self.0.arity().len()
        &&& (self.1, self.2).wf()
        &&& self.arity().len() <= usize::MAX
    }

    open spec fn arity(&self) -> Seq<u16> {
        self.0.arity() + (self.1, self.2).arity()
    }

    open spec fn fields(&self) -> Seq<u16> {
        self.0.fields() + (self.1, self.2).fields()
    }

    open spec fn with_field(&self, field: int, value: u16) -> Self {
        if field < self.0.arity().len() {
            (self.0.with_field(field, value), self.1, self.2)
        } else {
            let rest = (self.1, self.2).with_field(field - self.0.arity().len(), value);
            (self.0, rest.0, rest.1)
        }
    }

    fn num_fields(&self) -> (n: usize) {
        num_fields_3(&self.0, &self.1, &self.2)
    }

    fn num_field_values(&self, field: usize) -> (n: u16) {
        num_field_values_3(&self.0, &self.1, &self.2, field)
    }

    fn get_field(&self, field: usize) -> (value: u16) {
        get_field_3(&self.0, &self.1, &self.2, field)
    }

    fn set_field(&mut self, field: usize, value: u16) {
        set_field_3(&mut self.0, &mut self.1, &mut self.2, field, value);
    }
}

/// Number of fields of the four values together.
fn num_fields_4<A: Vary, B: Vary, C: Vary, D: Vary>(a: &A, b: &B, c: &C, d: &D) -> (n: usize)
    requires
        ({
            let all = (*a, *b, *c, *d);
            all.wf()
        }),
    ensures
        ({
            let all = (*a, *b, *c, *d);
            n == all.arity().len() && n == all.fields().len()
        }),
{
    let n0 = a.num_fields();
    let rest = num_fields_3(b, c, d);
    n0 + rest
}

/// Number of values that `field` of the four values together can take.
fn num_field_values_4<A: Vary, B: Vary, C: Vary, D: Vary>(
    a: &A,
    b: &B,
    c: &C,
    d: &D,
    field: usize,
) -> (n: u16)
    requires
        ({
            let all = (*a, *b, *c, *d);
            all.wf() && field < all.arity().len()
        }),
    ensures
        ({
            let all = (*a, *b, *c, *d);
            n == all.arity()[field as int] && n > 0
        }),
{
    let n0 = a.num_fields();
    if field < n0 {
        a.num_field_values(field)
    } else {
        num_field_values_3(b, c, d, field - n0)
    }
}

/// The value that `field` of the four values together holds.
fn get_field_4<A: Vary, B: Vary, C: Vary, D: Vary>(
    a: &A,
    b: &B,
    c: &C,
    d: &D,
    field: usize,
) -> (value: u16)
    requires
        ({
            let all = (*a, *b, *c, *d);
            all.wf() && field < all.arity().len()
        }),
    ensures
        ({
            let all = (*a, *b, *c, *d);
            value == all.fields()[field as int] && value < all.arity()[field as int]
        }),
{
    let n0 = a.num_fields();
    if field < n0 {
        a.get_field(field)
    } else {
        get_field_3(b, c, d, field - n0)
    }
}

/// Makes `field` of the four values together hold `value`.
fn set_field_4<A: Vary, B: Vary, C: Vary, D: Vary>(
    a: &mut A,
    b: &mut B,
    c: &mut C,
    d: &mut D,
    field: usize,
    value: u16,
)
    requires
        ({
            let before = (*old(a), *old(b), *old(c), *old(d));
            &&& before.wf()
            &&& field < before.arity().len()
            &&& value < before.arity()[field as int]
        }),
    ensures
        ({
            let before = (*old(a), *old(b), *old(c), *old(d));
            let after = (*final(a), *final(b), *final(c), *final(d));
            &&& after == before.with_field(field as int, value)
            &&& after.wf()
            &&& after.arity() == before.arity()
            &&& after.fields() == before.fields().update(field as int, value)
        }),
{
    let ghost rest = (*old(b), *old(c), *old(d)).fields();
    let n0 = a.num_fields();
    if field < n0 {
        a.set_field(field, value);
        proof {
            lemma_update_front(old(a).fields(), rest, field as int, value);
        }
    } else {
        set_field_3(b, c, d, field - n0, value);
        proof {
            lemma_update_back(old(a).fields(), rest, field as int, value);
        }
    }
}

/// A tuple of four values has the fields of the first value, then those of the others.
impl<A: Vary, B: Vary, C: Vary, D: Vary> Vary for (A, B, C, D) {
    open spec fn wf(&self) -> bool {
        &&& self.0.wf()
        &&& self.0.fields().len() == self.0.arity().len()
        &&& (self.1, self.2, self.3).wf()
        &&& self.arity().len() <= usize::MAX
    }

    open spec fn arity(&self) -> Seq<u16> {
        self.0.arity() + (self.1, self.2, self.3).arity()
    }

    open spec fn fields(&self) -> Seq<u16> {
        self.0.fields() + (self.1, self.2, self.3).fields()
    }

    open spec fn with_field(&self, field: int, value: u16) -> Self {
        if field < self.0.arity().len() {
            (self.0.with_field(field, value), self.1, self.2, self.3)
        } else {
            let rest = (self.1, self.2, self.3).with_field(field - self.0.arity().len(), value);
            (self.0, rest.0, rest.1, rest.2)
        }
    }

    fn num_fields(&self) -> (n: usize) {
        num_fields_4(&self.0, &self.1, &self.2, &self.3)
    }

    fn num_field_values(&self, field: usize) -> (n: u16) {
        num_field_values_4(&self.0, &self.1, &self.2, &self.3, field)
    }

    fn get_field(&self, field: usize) -> (value: u16) {
        get_field_4(&self.0, &self.1, &self.2, &self.3, field)
    }

    fn set_field(&mut self, field: usize, value: u16) {
        set_field_4(&mut self.0, &mut self.1, &mut self.2, &mut self.3, field, value);
    }
}

/// Number of fields of the five values together.
fn num_fields_5<A: Vary, B: Vary, C: Vary, D: Vary, E: Vary>(
    a: &A,
    b: &B,
    c: &C,
    d: &D,
    e: &E,
) -> (n: usize)
    requires
        ({
            let all = (*a, *b, *c, *d, *e);
            all.wf()
        }),
    ensures
        ({
            let all = (*a, *b, *c, *d, *e);
            n == all.arity().len() && n == all.fields().len()
        }),
{
    let n0 = a.num_fields();
    let rest = num_fields_4(b, c, d, e);
    n0 + rest
}

/// Number of values that `field` of the five values together can take.
fn num_field_values_5<A: Vary, B: Vary, C: Vary, D: Vary, E: Vary>(
    a: &A,
    b: &B,
    c: &C,
    d: &D,
    e: &E,
    field: usize,
) -> (n: u16)
    requires
        ({
            let all = (*a, *b, *c, *d, *e);
            all.wf() && field < all.arity().len()
        }),
    ensures
        ({
            let all = (*a, *b, *c, *d, *e);
            n == all.arity()[field as int] && n > 0
        }),
{
    let n0 = a.num_fields();
    if field < n0 {
        a.num_field_values(field)
    } else {
        num_field_values_4(b, c, d, e, field - n0)
    }
}

/// The value that `field` of the five values together holds.
fn get_field_5<A: Vary, B: Vary, C: Vary, D: Vary, E: Vary>(
    a: &A,
    b: &B,
    c: &C,
    d: &D,
    e: &E,
    field: usize,
) -> (value: u16)
    requires
        ({
            let all = (*a, *b, *c, *d, *e);
            all.wf() && field < all.arity().len()
        }),
    ensures
        ({
            let all = (*a, *b, *c, *d, *e);
            value == all.fields()[field as int] && value < all.arity()[field as int]
        }),
{
    let n0 = a.num_fields();
    if field < n0 {
        a.get_field(field)
    } else {
        get_field_4(b, c, d, e, field - n0)
    }
}

/// Makes `field` of the five values together hold `value`.
fn set_field_5<A: Vary, B: Vary, C: Vary, D: Vary, E: Vary>(
    a: &mut A,
    b: &mut B,
    c: &mut C,
    d: &mut D,
    e: &mut E,
    field: usize,
    value: u16,
)
    requires
        ({
            let before = (*old(a), *old(b), *old(c), *old(d), *old(e));
            &&& before.wf()
            &&& field < before.arity().len()
            &&& value < before.arity()[field as int]
        }),
    ensures
        ({
            let before = (*old(a), *old(b), *old(c), *old(d), *old(e));
            let after = (*final(a), *final(b), *final(c), *final(d), *final(e));
            &&& after == before.with_field(field as int, value)
            &&& after.wf()
            &&& after.arity() == before.arity()
            &&& after.fields() == before.fields().update(field as int, value)
        }),
{
    let ghost rest = (*old(b), *old(c), *old(d), *old(e)).fields();
    let n0 = a.num_fields();
    if field < n0 {
        a.set_field(field, value);
        proof {
            lemma_update_front(old(a).fields(), rest, field as int, value);
        }
    } else {
        set_field_4(b, c, d, e, field - n0, value);
        proof {
            lemma_update_back(old(a).fields(), rest, field as int, value);
        }
    }
}

/// A tuple of five values has the fields of the first value, then those of the others.
impl<A: Vary, B: Vary, C: Vary, D: Vary, E: Vary> Vary for (A, B, C, D, E) {
    open spec fn wf(&self) -> bool {
        &&& self.0.wf()
        &&& self.0.fields().len() == self.0.arity().len()
        &&& (self.1, self.2, self.3, self.4).wf()
        &&& self.arity().len() <= usize::MAX
    }

    open spec fn arity(&self) -> Seq<u16> {
        self.0.arity() + (self.1, self.2, self.3, self.4).arity()
    }

    open spec fn fields(&self) -> Seq<u16> {
        self.0.fields() + (self.1, self.2, self.3, self.4).fields()
    }

    open spec fn with_field(&self, field: int, value: u16) -> Self {
        if field < self.0.arity().len() {
            (self.0.with_field(field, value), self.1, self.2, self.3, self.4)
        } else {
            let rest = (self.1, self.2, self.3, self.4).with_field(
                field - self.0.arity().len(),
                value,
            );
            (self.0, rest.0, rest.1, rest.2, rest.3)
        }
    }

    fn num_fields(&self) -> (n: usize) {
        num_fields_5(&self.0, &self.1, &self.2, &self.3, &self.4)
    }

    fn num_field_values(&self, field: usize) -> (n: u16) {
        num_field_values_5(&self.0, &self.1, &self.2, &self.3, &self.4, field)
    }

    fn get_field(&self, field: usize) -> (value: u16) {
        get_field_5(&self.0, &self.1, &self.2, &self.3, &self.4, field)
    }

    fn set_field(&mut self, field: usize, value: u16) {
        set_field_5(&mut self.0, &mut self.1, &mut self.2, &mut self.3, &mut self.4, field, value);
    }
}

/// Number of fields of the six values together.
fn num_fields_6<A: Vary, B: Vary, C: Vary, D: Vary, E: Vary, F: Vary>(
    a: &A,
    b: &B,
    c: &C,
    d: &D,
    e: &E,
    f: &F,
) -> (n: usize)
    requires
        ({
            let all = (*a, *b, *c, *d, *e, *f);
            all.wf()
        }),
    ensures
        ({
            let all = (*a, *b, *c, *d, *e, *f);
            n == all.arity().len() && n == all.fields().len()
        }),
{
    let n0 = a.num_fields();
    let rest = num_fields_5(b, c, d, e, f);
    n0 + rest
}

/// Number of values that `field` of the six values together can take.
fn num_field_values_6<A: Vary, B: Vary, C: Vary, D: Vary, E: Vary, F: Vary>(
    a: &A,
    b: &B,
    c: &C,
    d: &D,
    e: &E,
    f: &F,
    field: usize,
) -> (n: u16)
    requires
        ({
            let all = (*a, *b, *c, *d, *e, *f);
            all.wf() && field < all.arity().len()
        }),
    ensures
        ({
            let all = (*a, *b, *c, *d, *e, *f);
            n == all.arity()[field as int] && n > 0
        }),
{
    let n0 = a.num_fields();
    if field < n0 {
        a.num_field_values(field)
    } else {
        num_field_values_5(b, c, d, e, f, field - n0)
    }
}

/// The value that `field` of the six values together holds.
fn get_field_6<A: Vary, B: Vary, C: Vary, D: Vary, E: Vary, F: Vary>(
    a: &A,
    b: &B,
    c: &C,
    d: &D,
    e: &E,
    f: &F,
    field: usize,
) -> (value: u16)
    requires
        ({
            let all = (*a, *b, *c, *d, *e, *f);
            all.wf() && field < all.arity().len()
        }),
    ensures
        ({
            let all = (*a, *b, *c, *d, *e, *f);
            value == all.fields()[field as int] && value < all.arity()[field as int]
        }),
{
    let n0 = a.num_fields();
    if field < n0 {
        a.get_field(field)
    } else {
        get_field_5(b, c, d, e, f, field - n0)
    }
}

/// Makes `field` of the six values together hold `value`.
fn set_field_6<A: Vary, B: Vary, C: Vary, D: Vary, E: Vary, F: Vary>(
    a: &mut A,
    b: &mut B,
    c: &mut C,
    d: &mut D,
    e: &mut E,
    f: &mut F,
    field: usize,
    value: u16,
)
    requires
        ({
            let before = (*old(a), *old(b), *old(c), *old(d), *old(e), *old(f));
            &&& before.wf()
            &&& field < before.arity().len()
            &&& value < before.arity()[field as int]
        }),
    ensures
        ({
            let before = (*old(a), *old(b), *old(c), *old(d), *old(e), *old(f));
            let after = (*final(a), *final(b), *final(c), *final(d), *final(e), *final(f));
            &&& after == before.with_field(field as int, value)
            &&& after.wf()
            &&& after.arity() == before.arity()
            &&& after.fields() == before.fields().update(field as int, value)
        }),
{
    let ghost rest = (*old(b), *old(c), *old(d), *old(e), *old(f)).fields();
    let n0 = a.num_fields();
    if field < n0 {
        a.set_field(field, value);
        proof {
            lemma_update_front(old(a).fields(), rest, field as int, value);
        }
    } else {
        set_field_5(b, c, d, e, f, field - n0, value);
        proof {
            lemma_update_back(old(a).fields(), rest, field as int, value);
        }
    }
}

/// A tuple of six values has the fields of the first value, then those of the others.
impl<A: Vary, B: Vary, C: Vary, D: Vary, E: Vary, F: Vary> Vary for (A, B, C, D, E, F) {
    open spec fn wf(&self) -> bool {
        &&& self.0.wf()
        &&& self.0.fields().len() == self.0.arity().len()
        &&& (self.1, self.2, self.3, self.4, self.5).wf()
        &&& self.arity().len() <= usize::MAX
    }

    open spec fn arity(&self) -> Seq<u16> {
        self.0.arity() + (self.1, self.2, self.3, self.4, self.5).arity()
    }

    open spec fn fields(&self) -> Seq<u16> {
        self.0.fields() + (self.1, self.2, self.3, self.4, self.5).fields()
    }

    open spec fn with_field(&self, field: int, value: u16) -> Self {
        if field < self.0.arity().len() {
            (self.0.with_field(field, value), self.1, self.2, self.3, self.4, self.5)
        } else {
            let rest = (self.1, self.2, self.3, self.4, self.5).with_field(
                field - self.0.arity().len(),
                value,
            );
            (self.0, rest.0, rest.1, rest.2, rest.3, rest.4)
        }
    }

    fn num_fields(&self) -> (n: usize) {
        num_fields_6(&self.0, &self.1, &self.2, &self.3, &self.4, &self.5)
    }

    fn num_field_values(&self, field: usize) -> (n: u16) {
        num_field_values_6(&self.0, &self.1, &self.2, &self.3, &self.4, &self.5, field)
    }

    fn get_field(&self, field: usize) -> (value: u16) {
        get_field_6(&self.0, &self.1, &self.2, &self.3, &self.4, &self.5, field)
    }

    fn set_field(&mut self, field: usize, value: u16) {
        set_field_6(
            &mut self.0,
            &mut self.1,
            &mut self.2,
            &mut self.3,
            &mut self.4,
            &mut self.5,
            field,
            value,
        );
    }
}

/// Number of fields of the seven values together.
fn num_fields_7<A: Vary, B: Vary, C: Vary, D: Vary, E: Vary, F: Vary, G: Vary>(
    a: &A,
    b: &B,
    c: &C,
    d: &D,
    e: &E,
    f: &F,
    g: &G,
) -> (n: usize)
    requires
        ({
            let all = (*a, *b, *c, *d, *e, *f, *g);
            all.wf()
        }),
    ensures
        ({
            let all = (*a, *b, *c, *d, *e, *f, *g);
            n == all.arity().len() && n == all.fields().len()
        }),
{
    let n0 = a.num_fields();
    let rest = num_fields_6(b, c, d, e, f, g);
    n0 + rest
}

/// Number of values that `field` of the seven values together can take.
fn num_field_values_7<A: Vary, B: Vary, C: Vary, D: Vary, E: Vary, F: Vary, G: Vary>(
    a: &A,
    b: &B,
    c: &C,
    d: &D,
    e: &E,
    f: &F,
    g: &G,
    field: usize,
) -> (n: u16)
    requires
        ({
            let all = (*a, *b, *c, *d, *e, *f, *g);
            all.wf() && field < all.arity().len()
        }),
    ensures
        ({
            let all = (*a, *b, *c, *d, *e, *f, *g);
            n == all.arity()[field as int] && n > 0
        }),
{
    let n0 = a.num_fields();
    if field < n0 {
        a.num_field_values(field)
    } else {
        num_field_values_6(b, c, d, e, f, g, field - n0)
    }
}

/// The value that `field` of the seven values together holds.
fn get_field_7<A: Vary, B: Vary, C: Vary, D: Vary, E: Vary, F: Vary, G: Vary>(
    a: &A,
    b: &B,
    c: &C,
    d: &D,
    e: &E,
    f: &F,
    g: &G,
    field: usize,
) -> (value: u16)
    requires
        ({
            let all = (*a, *b, *c, *d, *e, *f, *g);
            all.wf() && field < all.arity().len()
        }),
    ensures
        ({
            let all = (*a, *b, *c, *d, *e, *f, *g);
            value == all.fields()[field as int] && value < all.arity()[field as int]
        }),
{
    let n0 = a.num_fields();
    if field < n0 {
        a.get_field(field)
    } else {
        get_field_6(b, c, d, e, f, g, field - n0)
    }
}

/// Makes `field` of the seven values together hold `value`.
fn set_field_7<A: Vary, B: Vary, C: Vary, D: Vary, E: Vary, F: Vary, G: Vary>(
    a: &mut A,
    b: &mut B,
    c: &mut C,
    d: &mut D,
    e: &mut E,
    f: &mut F,
    g: &mut G,
    field: usize,
    value: u16,
)
    requires
        ({
            let before = (*old(a), *old(b), *old(c), *old(d), *old(e), *old(f), *old(g));
            &&& before.wf()
            &&& field < before.arity().len()
            &&& value < before.arity()[field as int]
        }),
    ensures
        ({
            let before = (*old(a), *old(b), *old(c), *old(d), *old(e), *old(f), *old(g));
            let after = (
                *final(a),
                *final(b),
                *final(c),
                *final(d),
                *final(e),
                *final(f),
                *final(g),
            );
            &&& after == before.with_field(field as int, value)
            &&& after.wf()
            &&& after.arity() == before.arity()
            &&& after.fields() == before.fields().update(field as int, value)
        }),
{
    let ghost rest = (*old(b), *old(c), *old(d), *old(e), *old(f), *old(g)).fields();
    let n0 = a.num_fields();
    if field < n0 {
        a.set_field(field, value);
        proof {
            lemma_update_front(old(a).fields(), rest, field as int, value);
        }
    } else {
        set_field_6(b, c, d, e, f, g, field - n0, value);
        proof {
            lemma_update_back(old(a).fields(), rest, field as int, value);
        }
    }
}

/// A tuple of seven values has the fields of the first value, then those of the others.
impl<A: Vary, B: Vary, C: Vary, D: Vary, E: Vary, F: Vary, G: Vary> Vary for (A, B, C, D, E, F, G) {
    open spec fn wf(&self) -> bool {
        &&& self.0.wf()
        &&& self.0.fields().len() == self.0.arity().len()
        &&& (self.1, self.2, self.3, self.4, self.5, self.6).wf()
        &&& self.arity().len() <= usize::MAX
    }

    open spec fn arity(&self) -> Seq<u16> {
        self.0.arity() + (self.1, self.2, self.3, self.4, self.5, self.6).arity()
    }

    open spec fn fields(&self) -> Seq<u16> {
        self.0.fields() + (self.1, self.2, self.3, self.4, self.5, self.6).fields()
    }

    open spec fn with_field(&self, field: int, value: u16) -> Self {
        if field < self.0.arity().len() {
            (self.0.with_field(field, value), self.1, self.2, self.3, self.4, self.5, self.6)
        } else {
            let rest = (self.1, self.2, self.3, self.4, self.5, self.6).with_field(
                field - self.0.arity().len(),
                value,
            );
            (self.0, rest.0, rest.1, rest.2, rest.3, rest.4, rest.5)
        }
    }

    fn num_fields(&self) -> (n: usize) {
        num_fields_7(&self.0, &self.1, &self.2, &self.3, &self.4, &self.5, &self.6)
    }

    fn num_field_values(&self, field: usize) -> (n: u16) {
        num_field_values_7(&self.0, &self.1, &self.2, &self.3, &self.4, &self.5, &self.6, field)
    }

    fn get_field(&self, field: usize) -> (value: u16) {
        get_field_7(&self.0, &self.1, &self.2, &self.3, &self.4, &self.5, &self.6, field)
    }

    fn set_field(&mut self, field: usize, value: u16) {
        set_field_7(
            &mut self.0,
            &mut self.1,
            &mut self.2,
            &mut self.3,
            &mut self.4,
            &mut self.5,
            &mut self.6,
            field,
            value,
        );
    }
}

/// Number of fields of the eight values together.
fn num_fields_8<A: Vary, B: Vary, C: Vary, D: Vary, E: Vary, F: Vary, G: Vary, H: Vary>(
    a: &A,
    b: &B,
    c: &C,
    d: &D,
    e: &E,
    f: &F,
    g: &G,
    h: &H,
) -> (n: usize)
    requires
        ({
            let all = (*a, *b, *c, *d, *e, *f, *g, *h);
            all.wf()
        }),
    ensures
        ({
            let all = (*a, *b, *c, *d, *e, *f, *g, *h);
            n == all.arity().len() && n == all.fields().len()
        }),
{
    let n0 = a.num_fields();
    let rest = num_fields_7(b, c, d, e, f, g, h);
    n0 + rest
}

/// Number of values that `field` of the eight values together can take.
fn num_field_values_8<A: Vary, B: Vary, C: Vary, D: Vary, E: Vary, F: Vary, G: Vary, H: Vary>(
    a: &A,
    b: &B,
    c: &C,
    d: &D,
    e: &E,
    f: &F,
    g: &G,
    h: &H,
    field: usize,
) -> (n: u16)
    requires
        ({
            let all = (*a, *b, *c, *d, *e, *f, *g, *h);
            all.wf() && field < all.arity().len()
        }),
    ensures
        ({
            let all = (*a, *b, *c, *d, *e, *f, *g, *h);
            n == all.arity()[field as int] && n > 0
        }),
{
    let n0 = a.num_fields();
    if field < n0 {
        a.num_field_values(field)
    } else {
        num_field_values_7(b, c, d, e, f, g, h, field - n0)
    }
}

/// The value that `field` of the eight values together holds.
fn get_field_8<A: Vary, B: Vary, C: Vary, D: Vary, E: Vary, F: Vary, G: Vary, H: Vary>(
    a: &A,
    b: &B,
    c: &C,
    d: &D,
    e: &E,
    f: &F,
    g: &G,
    h: &H,
    field: usize,
) -> (value: u16)
    requires
        ({
            let all = (*a, *b, *c, *d, *e, *f, *g, *h);
            all.wf() && field < all.arity().len()
        }),
    ensures
        ({
            let all = (*a, *b, *c, *d, *e, *f, *g, *h);
            value == all.fields()[field as int] && value < all.arity()[field as int]
        }),
{
    let n0 = a.num_fields();
    if field < n0 {
        a.get_field(field)
    } else {
        get_field_7(b, c, d, e, f, g, h, field - n0)
    }
}

/// Makes `field` of the eight values together hold `value`.
fn set_field_8<A: Vary, B: Vary, C: Vary, D: Vary, E: Vary, F: Vary, G: Vary, H: Vary>(
    a: &mut A,
    b: &mut B,
    c: &mut C,
    d: &mut D,
    e: &mut E,
    f: &mut F,
    g: &mut G,
    h: &mut H,
    field: usize,
    value: u16,
)
    requires
        ({
            let before = (*old(a), *old(b), *old(c), *old(d), *old(e), *old(f), *old(g), *old(h));
            &&& before.wf()
            &&& field < before.arity().len()
            &&& value < before.arity()[field as int]
        }),
    ensures
        ({
            let before = (*old(a), *old(b), *old(c), *old(d), *old(e), *old(f), *old(g), *old(h));
            let after = (
                *final(a),
                *final(b),
                *final(c),
                *final(d),
                *final(e),
                *final(f),
                *final(g),
                *final(h),
            );
            &&& after == before.with_field(field as int, value)
            &&& after.wf()
            &&& after.arity() == before.arity()
            &&& after.fields() == before.fields().update(field as int, value)
        }),
{
    let ghost rest = (*old(b), *old(c), *old(d), *old(e), *old(f), *old(g), *old(h)).fields();
    let n0 = a.num_fields();
    if field < n0 {
        a.set_field(field, value);
        proof {
            lemma_update_front(old(a).fields(), rest, field as int, value);
        }
    } else {
        set_field_7(b, c, d, e, f, g, h, field - n0, value);
        proof {
            lemma_update_back(old(a).fields(), rest, field as int, value);
        }
    }
}

/// A tuple of eight values has the fields of the first value, then those of the others.
impl<
    A: Vary,
    B: Vary,
    C: Vary,
    D: Vary,
    E: Vary,
    F: Vary,
    G: Vary,
    H: Vary,
> Vary for (A, B, C, D, E, F, G, H) {
    open spec fn wf(&self) -> bool {
        &&& self.0.wf()
        &&& self.0.fields().len() == self.0.arity().len()
        &&& (self.1, self.2, self.3, self.4, self.5, self.6, self.7).wf()
        &&& self.arity().len() <= usize::MAX
    }

    open spec fn arity(&self) -> Seq<u16> {
        self.0.arity() + (self.1, self.2, self.3, self.4, self.5, self.6, self.7).arity()
    }

    open spec fn fields(&self) -> Seq<u16> {
        self.0.fields() + (self.1, self.2, self.3, self.4, self.5, self.6, self.7).fields()
    }

    open spec fn with_field(&self, field: int, value: u16) -> Self {
        if field < self.0.arity().len() {
            (
                self.0.with_field(field, value),
                self.1,
                self.2,
                self.3,
                self.4,
                self.5,
                self.6,
                self.7,
            )
        } else {
            let rest = (self.1, self.2, self.3, self.4, self.5, self.6, self.7).with_field(
                field - self.0.arity().len(),
                value,
            );
            (self.0, rest.0, rest.1, rest.2, rest.3, rest.4, rest.5, rest.6)
        }
    }

    fn num_fields(&self) -> (n: usize) {
        num_fields_8(&self.0, &self.1, &self.2, &self.3, &self.4, &self.5, &self.6, &self.7)
    }

    fn num_field_values(&self, field: usize) -> (n: u16) {
        num_field_values_8(
            &self.0,
            &self.1,
            &self.2,
            &self.3,
            &self.4,
            &self.5,
            &self.6,
            &self.7,
            field,
        )
    }

    fn get_field(&self, field: usize) -> (value: u16) {
        get_field_8(&self.0, &self.1, &self.2, &self.3, &self.4, &self.5, &self.6, &self.7, field)
    }

    fn set_field(&mut self, field: usize, value: u16) {
        set_field_8(
            &mut self.0,
            &mut self.1,
            &mut self.2,
            &mut self.3,
            &mut self.4,
            &mut self.5,
            &mut self.6,
            &mut self.7,
            field,
            value,
        );
    }
}

/// Number of fields of the nine values together.
fn num_fields_9<A: Vary, B: Vary, C: Vary, D: Vary, E: Vary, F: Vary, G: Vary, H: Vary, I: Vary>(
    a: &A,
    b: &B,
    c: &C,
    d: &D,
    e: &E,
    f: &F,
    g: &G,
    h: &H,
    i: &I,
) -> (n: usize)
    requires
        ({
            let all = (*a, *b, *c, *d, *e, *f, *g, *h, *i);
            all.wf()
        }),
    ensures
        ({
            let all = (*a, *b, *c, *d, *e, *f, *g, *h, *i);
            n == all.arity().len() && n == all.fields().len()
        }),
{
    let n0 = a.num_fields();
    let rest = num_fields_8(b, c, d, e, f, g, h, i);
    n0 + rest
}

/// Number of values that `field` of the nine values together can take.
fn num_field_values_9<
    A: Vary,
    B: Vary,
    C: Vary,
    D: Vary,
    E: Vary,
    F: Vary,
    G: Vary,
    H: Vary,
    I: Vary,
>(
    a: &A,
    b: &B,
    c: &C,
    d: &D,
    e: &E,
    f: &F,
    g: &G,
    h: &H,
    i: &I,
    field: usize,
) -> (n: u16)
    requires
        ({
            let all = (*a, *b, *c, *d, *e, *f, *g, *h, *i);
            all.wf() && field < all.arity().len()
        }),
    ensures
        ({
            let all = (*a, *b, *c, *d, *e, *f, *g, *h, *i);
            n == all.arity()[field as int] && n > 0
        }),
{
    let n0 = a.num_fields();
    if field < n0 {
        a.num_field_values(field)
    } else {
        num_field_values_8(b, c, d, e, f, g, h, i, field - n0)
    }
}

/// The value that `field` of the nine values together holds.
fn get_field_9<A: Vary, B: Vary, C: Vary, D: Vary, E: Vary, F: Vary, G: Vary, H: Vary, I: Vary>(
    a: &A,
    b: &B,
    c: &C,
    d: &D,
    e: &E,
    f: &F,
    g: &G,
    h: &H,
    i: &I,
    field: usize,
) -> (value: u16)
    requires
        ({
            let all = (*a, *b, *c, *d, *e, *f, *g, *h, *i);
            all.wf() && field < all.arity().len()
        }),
    ensures
        ({
            let all = (*a, *b, *c, *d, *e, *f, *g, *h, *i);
            value == all.fields()[field as int] && value < all.arity()[field as int]
        }),
{
    let n0 = a.num_fields();
    if field < n0 {
        a.get_field(field)
    } else {
        get_field_8(b, c, d, e, f, g, h, i, field - n0)
    }
}

/// Makes `field` of the nine values together hold `value`.
fn set_field_9<A: Vary, B: Vary, C: Vary, D: Vary, E: Vary, F: Vary, G: Vary, H: Vary, I: Vary>(
    a: &mut A,
    b: &mut B,
    c: &mut C,
    d: &mut D,
    e: &mut E,
    f: &mut F,
    g: &mut G,
    h: &mut H,
    i: &mut I,
    field: usize,
    value: u16,
)
    requires
        ({
            let before = (
                *old(a),
                *old(b),
                *old(c),
                *old(d),
                *old(e),
                *old(f),
                *old(g),
                *old(h),
                *old(i),
            );
            &&& before.wf()
            &&& field < before.arity().len()
            &&& value < before.arity()[field as int]
        }),
    ensures
        ({
            let before = (
                *old(a),
                *old(b),
                *old(c),
                *old(d),
                *old(e),
                *old(f),
                *old(g),
                *old(h),
                *old(i),
            );
            let after = (
                *final(a),
                *final(b),
                *final(c),
                *final(d),
                *final(e),
                *final(f),
                *final(g),
                *final(h),
                *final(i),
            );
            &&& after == before.with_field(field as int, value)
            &&& after.wf()
            &&& after.arity() == before.arity()
            &&& after.fields() == before.fields().update(field as int, value)
        }),
{
    let ghost rest = (
        *old(b),
        *old(c),
        *old(d),
        *old(e),
        *old(f),
        *old(g),
        *old(h),
        *old(i),
    ).fields();
    let n0 = a.num_fields();
    if field < n0 {
        a.set_field(field, value);
        proof {
            lemma_update_front(old(a).fields(), rest, field as int, value);
        }
    } else {
        set_field_8(b, c, d, e, f, g, h, i, field - n0, value);
        proof {
            lemma_update_back(old(a).fields(), rest, field as int, value);
        }
    }
}

/// A tuple of nine values has the fields of the first value, then those of the others.
impl<
    A: Vary,
    B: Vary,
    C: Vary,
    D: Vary,
    E: Vary,
    F: Vary,
    G: Vary,
    H: Vary,
    I: Vary,
> Vary for (A, B, C, D, E, F, G, H, I) {
    open spec fn wf(&self) -> bool {
        &&& self.0.wf()
        &&& self.0.fields().len() == self.0.arity().len()
        &&& (self.1, self.2, self.3, self.4, self.5, self.6, self.7, self.8).wf()
        &&& self.arity().len() <= usize::MAX
    }

    open spec fn arity(&self) -> Seq<u16> {
        self.0.arity() + (self.1, self.2, self.3, self.4, self.5, self.6, self.7, self.8).arity()
    }

    open spec fn fields(&self) -> Seq<u16> {
        self.0.fields() + (self.1, self.2, self.3, self.4, self.5, self.6, self.7, self.8).fields()
    }

    open spec fn with_field(&self, field: int, value: u16) -> Self {
        if field < self.0.arity().len() {
            (
                self.0.with_field(field, value),
                self.1,
                self.2,
                self.3,
                self.4,
                self.5,
                self.6,
                self.7,
                self.8,
            )
        } else {
            let rest = (self.1, self.2, self.3, self.4, self.5, self.6, self.7, self.8).with_field(
                field - self.0.arity().len(),
                value,
            );
            (self.0, rest.0, rest.1, rest.2, rest.3, rest.4, rest.5, rest.6, rest.7)
        }
    }

    fn num_fields(&self) -> (n: usize) {
        num_fields_9(
            &self.0,
            &self.1,
            &self.2,
            &self.3,
            &self.4,
            &self.5,
            &self.6,
            &self.7,
            &self.8,
        )
    }

    fn num_field_values(&self, field: usize) -> (n: u16) {
        num_field_values_9(
            &self.0,
            &self.1,
            &self.2,
            &self.3,
            &self.4,
            &self.5,
            &self.6,
            &self.7,
            &self.8,
            field,
        )
    }

    fn get_field(&self, field: usize) -> (value: u16) {
        get_field_9(
            &self.0,
            &self.1,
            &self.2,
            &self.3,
            &self.4,
            &self.5,
            &self.6,
            &self.7,
            &self.8,
            field,
        )
    }

    fn set_field(&mut self, field: usize, value: u16) {
        set_field_9(
            &mut self.0,
            &mut self.1,
            &mut self.2,
            &mut self.3,
            &mut self.4,
            &mut self.5,
            &mut self.6,
            &mut self.7,
            &mut self.8,
            field,
            value,
        );
    }
}

/// Number of fields of the ten values together.
fn num_fields_10<
    A: Vary,
    B: Vary,
    C: Vary,
    D: Vary,
    E: Vary,
    F: Vary,
    G: Vary,
    H: Vary,
    I: Vary,
    J: Vary,
>(
    a: &A,
    b: &B,
    c: &C,
    d: &D,
    e: &E,
    f: &F,
    g: &G,
    h: &H,
    i: &I,
    j: &J,
) -> (n: usize)
    requires
        ({
            let all = (*a, *b, *c, *d, *e, *f, *g, *h, *i, *j);
            all.wf()
        }),
    ensures
        ({
            let all = (*a, *b, *c, *d, *e, *f, *g, *h, *i, *j);
            n == all.arity().len() && n == all.fields().len()
        }),
{
    let n0 = a.num_fields();
    let rest = num_fields_9(b, c, d, e, f, g, h, i, j);
    n0 + rest
}

/// Number of values that `field` of the ten values together can take.
fn num_field_values_10<
    A: Vary,
    B: Vary,
    C: Vary,
    D: Vary,
    E: Vary,
    F: Vary,
    G: Vary,
    H: Vary,
    I: Vary,
    J: Vary,
>(
    a: &A,
    b: &B,
    c: &C,
    d: &D,
    e: &E,
    f: &F,
    g: &G,
    h: &H,
    i: &I,
    j: &J,
    field: usize,
) -> (n: u16)
    requires
        ({
            let all = (*a, *b, *c, *d, *e, *f, *g, *h, *i, *j);
            all.wf() && field < all.arity().len()
        }),
    ensures
        ({
            let all = (*a, *b, *c, *d, *e, *f, *g, *h, *i, *j);
            n == all.arity()[field as int] && n > 0
        }),
{
    let n0 = a.num_fields();
    if field < n0 {
        a.num_field_values(field)
    } else {
        num_field_values_9(b, c, d, e, f, g, h, i, j, field - n0)
    }
}

/// The value that `field` of the ten values together holds.
fn get_field_10<
    A: Vary,
    B: Vary,
    C: Vary,
    D: Vary,
    E: Vary,
    F: Vary,
    G: Vary,
    H: Vary,
    I: Vary,
    J: Vary,
>(
    a: &A,
    b: &B,
    c: &C,
    d: &D,
    e: &E,
    f: &F,
    g: &G,
    h: &H,
    i: &I,
    j: &J,
    field: usize,
) -> (value: u16)
    requires
        ({
            let all = (*a, *b, *c, *d, *e, *f, *g, *h, *i, *j);
            all.wf() && field < all.arity().len()
        }),
    ensures
        ({
            let all = (*a, *b, *c, *d, *e, *f, *g, *h, *i, *j);
            value == all.fields()[field as int] && value < all.arity()[field as int]
        }),
{
    let n0 = a.num_fields();
    if field < n0 {
        a.get_field(field)
    } else {
        get_field_9(b, c, d, e, f, g, h, i, j, field - n0)
    }
}

/// Makes `field` of the ten values together hold `value`.
fn set_field_10<
    A: Vary,
    B: Vary,
    C: Vary,
    D: Vary,
    E: Vary,
    F: Vary,
    G: Vary,
    H: Vary,
    I: Vary,
    J: Vary,
>(
    a: &mut A,
    b: &mut B,
    c: &mut C,
    d: &mut D,
    e: &mut E,
    f: &mut F,
    g: &mut G,
    h: &mut H,
    i: &mut I,
    j: &mut J,
    field: usize,
    value: u16,
)
    requires
        ({
            let before = (
                *old(a),
                *old(b),
                *old(c),
                *old(d),
                *old(e),
                *old(f),
                *old(g),
                *old(h),
                *old(i),
                *old(j),
            );
            &&& before.wf()
            &&& field < before.arity().len()
            &&& value < before.arity()[field as int]
        }),
    ensures
        ({
            let before = (
                *old(a),
                *old(b),
                *old(c),
                *old(d),
                *old(e),
                *old(f),
                *old(g),
                *old(h),
                *old(i),
                *old(j),
            );
            let after = (
                *final(a),
                *final(b),
                *final(c),
                *final(d),
                *final(e),
                *final(f),
                *final(g),
                *final(h),
                *final(i),
                *final(j),
            );
            &&& after == before.with_field(field as int, value)
            &&& after.wf()
            &&& after.arity() == before.arity()
            &&& after.fields() == before.fields().update(field as int, value)
        }),
{
    let ghost rest = (
        *old(b),
        *old(c),
        *old(d),
        *old(e),
        *old(f),
        *old(g),
        *old(h),
        *old(i),
        *old(j),
    ).fields();
    let n0 = a.num_fields();
    if field < n0 {
        a.set_field(field, value);
        proof {
            lemma_update_front(old(a).fields(), rest, field as int, value);
        }
    } else {
        set_field_9(b, c, d, e, f, g, h, i, j, field - n0, value);
        proof {
            lemma_update_back(old(a).fields(), rest, field as int, value);
        }
    }
}

/// A tuple of ten values has the fields of the first value, then those of the others.
impl<
    A: Vary,
    B: Vary,
    C: Vary,
    D: Vary,
    E: Vary,
    F: Vary,
    G: Vary,
    H: Vary,
    I: Vary,
    J: Vary,
> Vary for (A, B, C, D, E, F, G, H, I, J) {
    open spec fn wf(&self) -> bool {
        &&& self.0.wf()
        &&& self.0.fields().len() == self.0.arity().len()
        &&& (self.1, self.2, self.3, self.4, self.5, self.6, self.7, self.8, self.9).wf()
        &&& self.arity().len() <= usize::MAX
    }

    open spec fn arity(&self) -> Seq<u16> {
        self.0.arity() + (
            self.1,
            self.2,
            self.3,
            self.4,
            self.5,
            self.6,
            self.7,
            self.8,
            self.9,
        ).arity()
    }

    open spec fn fields(&self) -> Seq<u16> {
        self.0.fields() + (
            self.1,
            self.2,
            self.3,
            self.4,
            self.5,
            self.6,
            self.7,
            self.8,
            self.9,
        ).fields()
    }

    open spec fn with_field(&self, field: int, value: u16) -> Self {
        if field < self.0.arity().len() {
            (
                self.0.with_field(field, value),
                self.1,
                self.2,
                self.3,
                self.4,
                self.5,
                self.6,
                self.7,
                self.8,
                self.9,
            )
        } else {
            let rest = (
                self.1,
                self.2,
                self.3,
                self.4,
                self.5,
                self.6,
                self.7,
                self.8,
                self.9,
            ).with_field(field - self.0.arity().len(), value);
            (self.0, rest.0, rest.1, rest.2, rest.3, rest.4, rest.5, rest.6, rest.7, rest.8)
        }
    }

    fn num_fields(&self) -> (n: usize) {
        num_fields_10(
            &self.0,
            &self.1,
            &self.2,
            &self.3,
            &self.4,
            &self.5,
            &self.6,
            &self.7,
            &self.8,
            &self.9,
        )
    }

    fn num_field_values(&self, field: usize) -> (n: u16) {
        num_field_values_10(
            &self.0,
            &self.1,
            &self.2,
            &self.3,
            &self.4,
            &self.5,
            &self.6,
            &self.7,
            &self.8,
            &self.9,
            field,
        )
    }

    fn get_field(&self, field: usize) -> (value: u16) {
        get_field_10(
            &self.0,
            &self.1,
            &self.2,
            &self.3,
            &self.4,
            &self.5,
            &self.6,
            &self.7,
            &self.8,
            &self.9,
            field,
        )
    }

    fn set_field(&mut self, field: usize, value: u16) {
        set_field_10(
            &mut self.0,
            &mut self.1,
            &mut self.2,
            &mut self.3,
            &mut self.4,
            &mut self.5,
            &mut self.6,
            &mut self.7,
            &mut self.8,
            &mut self.9,
            field,
            value,
        );
    }
}

/// Number of fields of the eleven values together.
fn num_fields_11<
    A: Vary,
    B: Vary,
    C: Vary,
    D: Vary,
    E: Vary,
    F: Vary,
    G: Vary,
    H: Vary,
    I: Vary,
    J: Vary,
    K: Vary,
>(
    a: &A,
    b: &B,
    c: &C,
    d: &D,
    e: &E,
    f: &F,
    g: &G,
    h: &H,
    i: &I,
    j: &J,
    k: &K,
) -> (n: usize)
    requires
        ({
            let all = (*a, *b, *c, *d, *e, *f, *g, *h, *i, *j, *k);
            all.wf()
        }),
    ensures
        ({
            let all = (*a, *b, *c, *d, *e, *f, *g, *h, *i, *j, *k);
            n == all.arity().len() && n == all.fields().len()
        }),
{
    let n0 = a.num_fields();
    let rest = num_fields_10(b, c, d, e, f, g, h, i, j, k);
    n0 + rest
}

/// Number of values that `field` of the eleven values together can take.
fn num_field_values_11<
    A: Vary,
    B: Vary,
    C: Vary,
    D: Vary,
    E: Vary,
    F: Vary,
    G: Vary,
    H: Vary,
    I: Vary,
    J: Vary,
    K: Vary,
>(
    a: &A,
    b: &B,
    c: &C,
    d: &D,
    e: &E,
    f: &F,
    g: &G,
    h: &H,
    i: &I,
    j: &J,
    k: &K,
    field: usize,
) -> (n: u16)
    requires
        ({
            let all = (*a, *b, *c, *d, *e, *f, *g, *h, *i, *j, *k);
            all.wf() && field < all.arity().len()
        }),
    ensures
        ({
            let all = (*a, *b, *c, *d, *e, *f, *g, *h, *i, *j, *k);
            n == all.arity()[field as int] && n > 0
        }),
{
    let n0 = a.num_fields();
    if field < n0 {
        a.num_field_values(field)
    } else {
        num_field_values_10(b, c, d, e, f, g, h, i, j, k, field - n0)
    }
}

/// The value that `field` of the eleven values together holds.
fn get_field_11<
    A: Vary,
    B: Vary,
    C: Vary,
    D: Vary,
    E: Vary,
    F: Vary,
    G: Vary,
    H: Vary,
    I: Vary,
    J: Vary,
    K: Vary,
>(
    a: &A,
    b: &B,
    c: &C,
    d: &D,
    e: &E,
    f: &F,
    g: &G,
    h: &H,
    i: &I,
    j: &J,
    k: &K,
    field: usize,
) -> (value: u16)
    requires
        ({
            let all = (*a, *b, *c, *d, *e, *f, *g, *h, *i, *j, *k);
            all.wf() && field < all.arity().len()
        }),
    ensures
        ({
            let all = (*a, *b, *c, *d, *e, *f, *g, *h, *i, *j, *k);
            value == all.fields()[field as int] && value < all.arity()[field as int]
        }),
{
    let n0 = a.num_fields();
    if field < n0 {
        a.get_field(field)
    } else {
        get_field_10(b, c, d, e, f, g, h, i, j, k, field - n0)
    }
}

/// Makes `field` of the eleven values together hold `value`.
fn set_field_11<
    A: Vary,
    B: Vary,
    C: Vary,
    D: Vary,
    E: Vary,
    F: Vary,
    G: Vary,
    H: Vary,
    I: Vary,
    J: Vary,
    K: Vary,
>(
    a: &mut A,
    b: &mut B,
    c: &mut C,
    d: &mut D,
    e: &mut E,
    f: &mut F,
    g: &mut G,
    h: &mut H,
    i: &mut I,
    j: &mut J,
    k: &mut K,
    field: usize,
    value: u16,
)
    requires
        ({
            let before = (
                *old(a),
                *old(b),
                *old(c),
                *old(d),
                *old(e),
                *old(f),
                *old(g),
                *old(h),
                *old(i),
                *old(j),
                *old(k),
            );
            &&& before.wf()
            &&& field < before.arity().len()
            &&& value < before.arity()[field as int]
        }),
    ensures
        ({
            let before = (
                *old(a),
                *old(b),
                *old(c),
                *old(d),
                *old(e),
                *old(f),
                *old(g),
                *old(h),
                *old(i),
                *old(j),
                *old(k),
            );
            let after = (
                *final(a),
                *final(b),
                *final(c),
                *final(d),
                *final(e),
                *final(f),
                *final(g),
                *final(h),
                *final(i),
                *final(j),
                *final(k),
            );
            &&& after == before.with_field(field as int, value)
            &&& after.wf()
            &&& after.arity() == before.arity()
            &&& after.fields() == before.fields().update(field as int, value)
        }),
{
    let ghost rest = (
        *old(b),
        *old(c),
        *old(d),
        *old(e),
        *old(f),
        *old(g),
        *old(h),
        *old(i),
        *old(j),
        *old(k),
    ).fields();
    let n0 = a.num_fields();
    if field < n0 {
        a.set_field(field, value);
        proof {
            lemma_update_front(old(a).fields(), rest, field as int, value);
        }
    } else {
        set_field_10(b, c, d, e, f, g, h, i, j, k, field - n0, value);
        proof {
            lemma_update_back(old(a).fields(), rest, field as int, value);
        }
    }
}

/// A tuple of eleven values has the fields of the first value, then those of the others.
impl<
    A: Vary,
    B: Vary,
    C: Vary,
    D: Vary,
    E: Vary,
    F: Vary,
    G: Vary,
    H: Vary,
    I: Vary,
    J: Vary,
    K: Vary,
> Vary for (A, B, C, D, E, F, G, H, I, J, K) {
    open spec fn wf(&self) -> bool {
        &&& self.0.wf()
        &&& self.0.fields().len() == self.0.arity().len()
        &&& (self.1, self.2, self.3, self.4, self.5, self.6, self.7, self.8, self.9, self.10).wf()
        &&& self.arity().len() <= usize::MAX
    }

    open spec fn arity(&self) -> Seq<u16> {
        self.0.arity() + (
            self.1,
            self.2,
            self.3,
            self.4,
            self.5,
            self.6,
            self.7,
            self.8,
            self.9,
            self.10,
        ).arity()
    }

    open spec fn fields(&self) -> Seq<u16> {
        self.0.fields() + (
            self.1,
            self.2,
            self.3,
            self.4,
            self.5,
            self.6,
            self.7,
            self.8,
            self.9,
            self.10,
        ).fields()
    }

    open spec fn with_field(&self, field: int, value: u16) -> Self {
        if field < self.0.arity().len() {
            (
                self.0.with_field(field, value),
                self.1,
                self.2,
                self.3,
                self.4,
                self.5,
                self.6,
                self.7,
                self.8,
                self.9,
                self.10,
            )
        } else {
            let rest = (
                self.1,
                self.2,
                self.3,
                self.4,
                self.5,
                self.6,
                self.7,
                self.8,
                self.9,
                self.10,
            ).with_field(field - self.0.arity().len(), value);
            (self.0, rest.0, rest.1, rest.2, rest.3, rest.4, rest.5, rest.6, rest.7, rest.8, rest.9)
        }
    }

    fn num_fields(&self) -> (n: usize) {
        num_fields_11(
            &self.0,
            &self.1,
            &self.2,
            &self.3,
            &self.4,
            &self.5,
            &self.6,
            &self.7,
            &self.8,
            &self.9,
            &self.10,
        )
    }

    fn num_field_values(&self, field: usize) -> (n: u16) {
        num_field_values_11(
            &self.0,
            &self.1,
            &self.2,
            &self.3,
            &self.4,
            &self.5,
            &self.6,
            &self.7,
            &self.8,
            &self.9,
            &self.10,
            field,
        )
    }

    fn get_field(&self, field: usize) -> (value: u16) {
        get_field_11(
            &self.0,
            &self.1,
            &self.2,
            &self.3,
            &self.4,
            &self.5,
            &self.6,
            &self.7,
            &self.8,
            &self.9,
            &self.10,
            field,
        )
    }

    fn set_field(&mut self, field: usize, value: u16) {
        set_field_11(
            &mut self.0,
            &mut self.1,
            &mut self.2,
            &mut self.3,
            &mut self.4,
            &mut self.5,
            &mut self.6,
            &mut self.7,
            &mut self.8,
            &mut self.9,
            &mut self.10,
            field,
            value,
        );
    }
}

/// Number of fields of the twelve values together.
fn num_fields_12<
    A: Vary,
    B: Vary,
    C: Vary,
    D: Vary,
    E: Vary,
    F: Vary,
    G: Vary,
    H: Vary,
    I: Vary,
    J: Vary,
    K: Vary,
    L: Vary,
>(
    a: &A,
    b: &B,
    c: &C,
    d: &D,
    e: &E,
    f: &F,
    g: &G,
    h: &H,
    i: &I,
    j: &J,
    k: &K,
    l: &L,
) -> (n: usize)
    requires
        ({
            let all = (*a, *b, *c, *d, *e, *f, *g, *h, *i, *j, *k, *l);
            all.wf()
        }),
    ensures
        ({
            let all = (*a, *b, *c, *d, *e, *f, *g, *h, *i, *j, *k, *l);
            n == all.arity().len() && n == all.fields().len()
        }),
{
    let n0 = a.num_fields();
    let rest = num_fields_11(b, c, d, e, f, g, h, i, j, k, l);
    n0 + rest
}

/// Number of values that `field` of the twelve values together can take.
fn num_field_values_12<
    A: Vary,
    B: Vary,
    C: Vary,
    D: Vary,
    E: Vary,
    F: Vary,
    G: Vary,
    H: Vary,
    I: Vary,
    J: Vary,
    K: Vary,
    L: Vary,
>(
    a: &A,
    b: &B,
    c: &C,
    d: &D,
    e: &E,
    f: &F,
    g: &G,
    h: &H,
    i: &I,
    j: &J,
    k: &K,
    l: &L,
    field: usize,
) -> (n: u16)
    requires
        ({
            let all = (*a, *b, *c, *d, *e, *f, *g, *h, *i, *j, *k, *l);
            all.wf() && field < all.arity().len()
        }),
    ensures
        ({
            let all = (*a, *b, *c, *d, *e, *f, *g, *h, *i, *j, *k, *l);
            n == all.arity()[field as int] && n > 0
        }),
{
    let n0 = a.num_fields();
    if field < n0 {
        a.num_field_values(field)
    } else {
        num_field_values_11(b, c, d, e, f, g, h, i, j, k, l, field - n0)
    }
}

/// The value that `field` of the twelve values together holds.
fn get_field_12<
    A: Vary,
    B: Vary,
    C: Vary,
    D: Vary,
    E: Vary,
    F: Vary,
    G: Vary,
    H: Vary,
    I: Vary,
    J: Vary,
    K: Vary,
    L: Vary,
>(
    a: &A,
    b: &B,
    c: &C,
    d: &D,
    e: &E,
    f: &F,
    g: &G,
    h: &H,
    i: &I,
    j: &J,
    k: &K,
    l: &L,
    field: usize,
) -> (value: u16)
    requires
        ({
            let all = (*a, *b, *c, *d, *e, *f, *g, *h, *i, *j, *k, *l);
            all.wf() && field < all.arity().len()
        }),
    ensures
        ({
            let all = (*a, *b, *c, *d, *e, *f, *g, *h, *i, *j, *k, *l);
            value == all.fields()[field as int] && value < all.arity()[field as int]
        }),
{
    let n0 = a.num_fields();
    if field < n0 {
        a.get_field(field)
    } else {
        get_field_11(b, c, d, e, f, g, h, i, j, k, l, field - n0)
    }
}

/// Makes `field` of the twelve values together hold `value`.
fn set_field_12<
    A: Vary,
    B: Vary,
    C: Vary,
    D: Vary,
    E: Vary,
    F: Vary,
    G: Vary,
    H: Vary,
    I: Vary,
    J: Vary,
    K: Vary,
    L: Vary,
>(
    a: &mut A,
    b: &mut B,
    c: &mut C,
    d: &mut D,
    e: &mut E,
    f: &mut F,
    g: &mut G,
    h: &mut H,
    i: &mut I,
    j: &mut J,
    k: &mut K,
    l: &mut L,
    field: usize,
    value: u16,
)
    requires
        ({
            let before = (
                *old(a),
                *old(b),
                *old(c),
                *old(d),
                *old(e),
                *old(f),
                *old(g),
                *old(h),
                *old(i),
                *old(j),
                *old(k),
                *old(l),
            );
            &&& before.wf()
            &&& field < before.arity().len()
            &&& value < before.arity()[field as int]
        }),
    ensures
        ({
            let before = (
                *old(a),
                *old(b),
                *old(c),
                *old(d),
                *old(e),
                *old(f),
                *old(g),
                *old(h),
                *old(i),
                *old(j),
                *old(k),
                *old(l),
            );
            let after = (
                *final(a),
                *final(b),
                *final(c),
                *final(d),
                *final(e),
                *final(f),
                *final(g),
                *final(h),
                *final(i),
                *final(j),
                *final(k),
                *final(l),
            );
            &&& after == before.with_field(field as int, value)
            &&& after.wf()
            &&& after.arity() == before.arity()
            &&& after.fields() == before.fields().update(field as int, value)
        }),
{
    let ghost rest = (
        *old(b),
        *old(c),
        *old(d),
        *old(e),
        *old(f),
        *old(g),
        *old(h),
        *old(i),
        *old(j),
        *old(k),
        *old(l),
    ).fields();
    let n0 = a.num_fields();
    if field < n0 {
        a.set_field(field, value);
        proof {
            lemma_update_front(old(a).fields(), rest, field as int, value);
        }
    } else {
        set_field_11(b, c, d, e, f, g, h, i, j, k, l, field - n0, value);
        proof {
            lemma_update_back(old(a).fields(), rest, field as int, value);
        }
    }
}

/// A tuple of twelve values has the fields of the first value, then those of the others.
impl<
    A: Vary,
    B: Vary,
    C: Vary,
    D: Vary,
    E: Vary,
    F: Vary,
    G: Vary,
    H: Vary,
    I: Vary,
    J: Vary,
    K: Vary,
    L: Vary,
> Vary for (A, B, C, D, E, F, G, H, I, J, K, L) {
    open spec fn wf(&self) -> bool {
        &&& self.0.wf()
        &&& self.0.fields().len() == self.0.arity().len()
        &&& (
            self.1,
            self.2,
            self.3,
            self.4,
            self.5,
            self.6,
            self.7,
            self.8,
            self.9,
            self.10,
            self.11,
        ).wf()
        &&& self.arity().len() <= usize::MAX
    }

    open spec fn arity(&self) -> Seq<u16> {
        self.0.arity() + (
            self.1,
            self.2,
            self.3,
            self.4,
            self.5,
            self.6,
            self.7,
            self.8,
            self.9,
            self.10,
            self.11,
        ).arity()
    }

    open spec fn fields(&self) -> Seq<u16> {
        self.0.fields() + (
            self.1,
            self.2,
            self.3,
            self.4,
            self.5,
            self.6,
            self.7,
            self.8,
            self.9,
            self.10,
            self.11,
        ).fields()
    }

    open spec fn with_field(&self, field: int, value: u16) -> Self {
        if field < self.0.arity().len() {
            (
                self.0.with_field(field, value),
                self.1,
                self.2,
                self.3,
                self.4,
                self.5,
                self.6,
                self.7,
                self.8,
                self.9,
                self.10,
                self.11,
            )
        } else {
            let rest = (
                self.1,
                self.2,
                self.3,
                self.4,
                self.5,
                self.6,
                self.7,
                self.8,
                self.9,
                self.10,
                self.11,
            ).with_field(field - self.0.arity().len(), value);
            (
                self.0,
                rest.0,
                rest.1,
                rest.2,
                rest.3,
                rest.4,
                rest.5,
                rest.6,
                rest.7,
                rest.8,
                rest.9,
                rest.10,
            )
        }
    }

    fn num_fields(&self) -> (n: usize) {
        num_fields_12(
            &self.0,
            &self.1,
            &self.2,
            &self.3,
            &self.4,
            &self.5,
            &self.6,
            &self.7,
            &self.8,
            &self.9,
            &self.10,
            &self.11,
        )
    }

    fn num_field_values(&self, field: usize) -> (n: u16) {
        num_field_values_12(
            &self.0,
            &self.1,
            &self.2,
            &self.3,
            &self.4,
            &self.5,
            &self.6,
            &self.7,
            &self.8,
            &self.9,
            &self.10,
            &self.11,
            field,
        )
    }

    fn get_field(&self, field: usize) -> (value: u16) {
        get_field_12(
            &self.0,
            &self.1,
            &self.2,
            &self.3,
            &self.4,
            &self.5,
            &self.6,
            &self.7,
            &self.8,
            &self.9,
            &self.10,
            &self.11,
            field,
        )
    }

    fn set_field(&mut self, field: usize, value: u16) {
        set_field_12(
            &mut self.0,
            &mut self.1,
            &mut self.2,
            &mut self.3,
            &mut self.4,
            &mut self.5,
            &mut self.6,
            &mut self.7,
            &mut self.8,
            &mut self.9,
            &mut self.10,
            &mut self.11,
            field,
            value,
        );
    }
}

} // verus!

//! The parameters bound to one query, in placeholder order.
use vstd::prelude::*;

use crate::types::{encode, encode_error, encodes_as, Argument};
use crate::value::{Value, ValueError};

verus! {

/// What an encoder said of the value it pushed: whether it was `NULL`.
#[derive(Debug, Clone, Copy, PartialEq, Eq, Structural)]
pub enum IsNull {
    Yes,
    No,
}

/// `values` cut back to their first `len`, if there are that many.
pub open spec fn cut_to(values: Seq<Value>, len: int) -> Seq<Value> {
    if len <= values.len() {
        values.take(len)
    } else {
        values
    }
}

/// What an encoder that reported a value leaves, when it pushed onto
/// `values`, which held `len` values before it ran: the first value it
/// pushed, and nothing after it -- or `NULL`, if it pushed nothing.
pub open spec fn first_pushed(values: Seq<Value>, len: int) -> Seq<Value> {
    if len < values.len() {
        values.take(len + 1)
    } else {
        cut_to(values, len).push(Value::Null)
    }
}

/// What follows an encoder that pushed onto `values`, which held `len`
/// values before it ran: whatever the encoder did, exactly one value lands
/// for the placeholder, or none if it fails.
///
/// An encoder that reports `NULL` may still have pushed something, so what
/// it pushed gives way to exactly one `NULL`. An encoder that reports a value
/// keeps the first value it pushed and no more, and stands for `NULL` if it
/// pushed none. An encoder that fails leaves `values` as they were before
/// it, so a failed bind cannot shift every later parameter one placeholder to
/// the right.
pub fn add_argument<E>(values: &mut Vec<Value>, len: usize, outcome: Result<IsNull, E>) -> (r:
    Result<(), E>)
    ensures
        match outcome {
            Ok(IsNull::Yes) => r is Ok && final(values)@ == cut_to(old(values)@, len as int).push(
                Value::Null,
            ),
            Ok(IsNull::No) => r is Ok && final(values)@ == first_pushed(old(values)@, len as int),
            Err(e) => r == Err::<(), E>(e) && final(values)@ == cut_to(old(values)@, len as int),
        },
        len <= old(values)@.len() ==> final(values)@.take(len as int) == old(values)@.take(
            len as int,
        ),
        len <= old(values)@.len() ==> (r is Ok <==> final(values)@.len() == len + 1),
        len <= old(values)@.len() ==> (r is Err <==> final(values)@.len() == len),
{
    match outcome {
        Ok(IsNull::Yes) => {
            values.truncate(len);
            values.push(Value::Null);
            Ok(())
        },
        Ok(IsNull::No) => {
            if len < values.len() {
                values.truncate(len + 1);
            } else {
                values.truncate(len);
                values.push(Value::Null);
            }
            Ok(())
        },
        Err(error) => {
            values.truncate(len);
            Err(error)
        },
    }
}

/// The parameters bound to one query, in placeholder order.
///
/// The placeholder stays the default, `?`, which both backends expect.
#[derive(Debug, Clone)]
pub struct DoArguments {
    values: Vec<Value>,
}

/// D1's name for [`DoArguments`].
pub type D1Arguments = DoArguments;

impl DoArguments {
    pub closed spec fn spec_values(&self) -> Seq<Value> {
        self.values@
    }

    /// No parameters yet.
    pub fn new() -> (r: Self)
        ensures
            r.spec_values() == Seq::<Value>::empty(),
    {
        DoArguments { values: Vec::new() }
    }

    /// The values bound so far, in placeholder order.
    pub fn values(&self) -> (r: &[Value])
        ensures
            r@ == self.spec_values(),
    {
        self.values.as_slice()
    }

    /// The values bound so far, for an encoder to push onto.
    pub fn values_mut(&mut self) -> (r: &mut Vec<Value>)
        ensures
            r@ == old(self).spec_values(),
            final(self).spec_values() == final(r)@,
    {
        &mut self.values
    }

    /// The number of values bound so far.
    pub fn len(&self) -> (r: usize)
        ensures
            r == self.spec_values().len(),
    {
        self.values.len()
    }

    /// Makes room for `additional` more values.
    pub fn reserve(&mut self, additional: usize)
        ensures
            final(self).spec_values() == old(self).spec_values(),
    {
        self.values.reserve(additional);
    }

    /// Binds `argument` as the next placeholder's value.
    ///
    /// Exactly one value lands for the placeholder, or none if encoding
    /// fails -- an `i64` outside ±(2^53 − 1) -- in which case the arguments
    /// are left as they were.
    pub fn add(&mut self, argument: Argument) -> (r: Result<(), ValueError>)
        ensures
            match encode_error(argument) {
                Some(e) => r == Err::<(), ValueError>(e) && final(self).spec_values()
                    == old(self).spec_values(),
                None => r is Ok && final(self).spec_values().len() == old(self).spec_values().len()
                    + 1 && final(self).spec_values().drop_last() == old(self).spec_values()
                    && encodes_as(argument, final(self).spec_values().last()),
            },
    {
        let value = encode(argument)?;
        self.values.push(value);
        proof {
            assert(self.values@.drop_last() =~= old(self).values@);
        }
        Ok(())
    }
}

impl Default for DoArguments {
    /// No parameters yet.
    fn default() -> (r: Self)
        ensures
            r.spec_values() == Seq::<Value>::empty(),
    {
        DoArguments::new()
    }
}

} // verus!

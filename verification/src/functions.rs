//! Opaque function payloads carried by `MapFunction` operators, among
//! them ordering hints that a planner may attach to a stream.

use vstd::prelude::*;

verus! {

/// A per-column ordering hint: the stream is sorted by `column` in the
/// given direction, with nulls placed first or last.
pub struct Sorted {
    pub column: String,
    pub descending: bool,
    pub nulls_last: bool,
}

impl Sorted {
    /// The one-line textual form of this hint entry.
    pub fn describe(&self) -> (r: String)
        ensures
            r@ == sorted_text(*self),
    {
        let mut r = String::new();
        r.append("'");
        r.append(self.column.as_str());
        r.append("': { descending: ");
        r.append(if self.descending { "true" } else { "false" });
        r.append(", nulls_last: ");
        r.append(if self.nulls_last { "true" } else { "false" });
        r.append(" }");
        proof {
            assert(r@ =~= sorted_text(*self));
        }
        r
    }

    /// An exact copy of this hint entry.
    pub fn duplicate(&self) -> (r: Self)
        ensures
            r == *self,
    {
        Sorted {
            column: self.column.clone(),
            descending: self.descending,
            nulls_last: self.nulls_last,
        }
    }
}

/// The textual form of a truth value.
pub open spec fn bool_text(b: bool) -> Seq<char> {
    if b {
        "true"@
    } else {
        "false"@
    }
}

/// The one-line textual form of a [`Sorted`] hint entry.
pub open spec fn sorted_text(s: Sorted) -> Seq<char> {
    "'"@ + s.column@ + "': { descending: "@ + bool_text(s.descending) + ", nulls_last: "@
        + bool_text(s.nulls_last) + " }"@
}

/// The first `i` entries rendered and joined with a comma.
pub open spec fn hint_items_text(s: Seq<Sorted>, i: int) -> Seq<char>
    decreases i,
{
    if i <= 0 {
        Seq::empty()
    } else if i == 1 {
        sorted_text(s[0])
    } else {
        hint_items_text(s, i - 1) + ", "@ + sorted_text(s[i - 1])
    }
}

/// The textual form of a hint: its entries joined with commas, inside
/// `sorted(...)`.
pub open spec fn hint_text(s: Seq<Sorted>) -> Seq<char> {
    "sorted("@ + hint_items_text(s, s.len() as int) + ")"@
}

/// A hint attached to a plan: facts the planner may assume of the stream.
pub enum HintIR {
    /// The stream is sorted by the given columns.
    Sorted(Vec<Sorted>),
}

/// The abstract value of a [`HintIR`].
#[verifier::ext_equal]
pub enum HintIRV {
    Sorted(Seq<Sorted>),
}

impl View for HintIR {
    type V = HintIRV;

    open spec fn view(&self) -> HintIRV {
        match self {
            HintIR::Sorted(s) => HintIRV::Sorted(s@),
        }
    }
}

impl HintIR {
    /// The textual form of this hint: its entries joined with commas,
    /// inside `sorted(...)`.
    pub fn describe(&self) -> (r: String)
        ensures
            self@ matches HintIRV::Sorted(s) ==> r@ == hint_text(s),
    {
        match self {
            HintIR::Sorted(entries) => {
                let mut r = String::new();
                r.append("sorted(");
                let mut i: usize = 0;
                while i < entries.len()
                    invariant
                        i <= entries.len(),
                        r@ == "sorted("@ + hint_items_text(entries@, i as int),
                    decreases entries.len() - i,
                {
                    if i > 0 {
                        r.append(", ");
                    }
                    let e = entries[i].describe();
                    r.append(e.as_str());
                    proof {
                        assert(r@ =~= "sorted("@ + hint_items_text(entries@, i as int + 1));
                    }
                    i = i + 1;
                }
                r.append(")");
                proof {
                    assert(r@ =~= hint_text(entries@));
                }
                r
            },
        }
    }

    /// A copy of this hint, entry for entry.
    pub fn duplicate(&self) -> (r: Self)
        ensures
            r@ == self@,
    {
        match self {
            HintIR::Sorted(s) => {
                let mut entries: Vec<Sorted> = Vec::new();
                let mut i: usize = 0;
                while i < s.len()
                    invariant
                        i <= s.len(),
                        entries@ == s@.subrange(0, i as int),
                    decreases s.len() - i,
                {
                    entries.push(s[i].duplicate());
                    i = i + 1;
                }
                assert(entries@ == s@);
                HintIR::Sorted(entries)
            },
        }
    }
}

/// An opaque function applied by a `MapFunction` operator. The plan core
/// never runs it; it only threads the payload through its transforms.
pub enum FunctionIR {
    /// A planner hint; carries no behaviour of its own.
    Hint(HintIR),
    /// Reshape the stream's chunks.
    Rechunk,
}

/// The abstract value of a [`FunctionIR`].
#[verifier::ext_equal]
pub enum FunctionIRV {
    Hint(HintIRV),
    Rechunk,
}

impl View for FunctionIR {
    type V = FunctionIRV;

    open spec fn view(&self) -> FunctionIRV {
        match self {
            FunctionIR::Hint(h) => FunctionIRV::Hint(h@),
            FunctionIR::Rechunk => FunctionIRV::Rechunk,
        }
    }
}

impl FunctionIR {
    /// A copy of this payload.
    pub fn duplicate(&self) -> (r: Self)
        ensures
            r@ == self@,
    {
        match self {
            FunctionIR::Hint(h) => FunctionIR::Hint(h.duplicate()),
            FunctionIR::Rechunk => FunctionIR::Rechunk,
        }
    }
}

} // verus!

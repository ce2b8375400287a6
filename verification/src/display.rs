//! The text by which values are displayed, where built-in functions
//! decide it.

use crate::builtins::natives::{bool_text, tag_text};
use crate::builtins::Builtins;
use crate::decimal::decimal;
use crate::heap::prefix;
use crate::machine::find_slot;
use crate::value::{type_of, NativeFunction, Object, Slot, Type, Value};
use vstd::prelude::*;

verus! {

/// The parts of the heap that displaying a value reads.
pub ghost struct Shelf {
    pub types: Seq<Type>,
    pub objects: Seq<Object>,
    pub values: Seq<Value>,
    pub strings: Seq<String>,
    pub lists: Seq<Vec<Value>>,
    pub builtins: Builtins,
}

impl Shelf {
    /// This shelf with the text `strings`.
    pub open spec fn with(self, strings: Seq<String>) -> Shelf {
        Shelf { strings, ..self }
    }

    /// The text by which `value` is displayed, where the display slot of
    /// its type holds a built-in display function that takes one argument
    /// and the display needs no more than `depth` nested calls. Nothing
    /// where the slot holds anything else, where a binary64 number is to
    /// be displayed, which is for the floating-point unit to do, or where
    /// the display fails.
    pub open spec fn shown(self, value: Value, depth: nat) -> Option<Seq<char>>
        decreases depth, 0nat, 0nat,
    {
        if depth == 0 {
            None
        } else {
            match type_of(value, self.builtins, self.objects, self.values) {
                Some(ty) => match find_slot(self.types, ty, Slot::Display) {
                    Ok(Value::Native(display, pattern)) => if pattern.accepts(1) {
                        self.displayed(display, value, (depth - 1) as nat)
                    } else {
                        None
                    },
                    _ => None,
                },
                None => None,
            }
        }
    }

    /// The text that the built-in display function `display` gives for
    /// `value`: a string is its own text, an integer its decimal notation,
    /// a boolean `true` or `false`, a list its items in square brackets,
    /// and a value of a type without a notation the tag of the type.
    pub open spec fn displayed(self, display: NativeFunction, value: Value, depth: nat) -> Option<
        Seq<char>,
    >
        decreases depth, 3nat, 0nat,
    {
        match display {
            NativeFunction::StringDisplay => match value {
                Value::String(text) => if text.live(self.strings) {
                    Some(self.strings[text@]@)
                } else {
                    None
                },
                _ => None,
            },
            NativeFunction::IntegerDisplay => match value {
                Value::Integer(i) => Some(decimal(i as int)),
                _ => None,
            },
            NativeFunction::BoolDisplay => match value {
                Value::Bool(b) => Some(bool_text(b)),
                _ => None,
            },
            NativeFunction::ListDisplay => self.listed(value, depth),
            NativeFunction::FunctionDisplay
            | NativeFunction::FrameDisplay
            | NativeFunction::NativeDisplay
            | NativeFunction::CodeDisplay
            | NativeFunction::NullDisplay
            | NativeFunction::ObjectDisplay
            | NativeFunction::TypeDisplay => Some(tag_text(display)),
            _ => None,
        }
    }

    /// The text by which a list is displayed: its items as they are
    /// displayed, separated by a comma and a blank, in square brackets.
    pub open spec fn listed(self, value: Value, depth: nat) -> Option<Seq<char>>
        decreases depth, 2nat, 0nat,
    {
        match value {
            Value::List(list) => if list.live(self.lists) {
                match self.joined(self.lists[list@]@, depth, self.lists[list@]@.len()) {
                    Some(inner) => Some("["@ + inner + "]"@),
                    None => None,
                }
            } else {
                None
            },
            _ => None,
        }
    }

    /// The first `count` of `items` as they are displayed, separated by a
    /// comma and a blank.
    pub open spec fn joined(self, items: Seq<Value>, depth: nat, count: nat) -> Option<Seq<char>>
        decreases depth, 1nat, count,
    {
        if count == 0 {
            Some(Seq::empty())
        } else {
            match (
                self.joined(items, depth, (count - 1) as nat),
                self.shown(items[count - 1], depth),
            ) {
                (Some(before), Some(last)) => Some(
                    if count > 1 {
                        before + ", "@ + last
                    } else {
                        before + last
                    },
                ),
                _ => None,
            }
        }
    }

    /// The line that `print` writes for `args`: the arguments as they are
    /// displayed, separated by a comma and a blank, and a line feed.
    pub open spec fn printed(self, args: Seq<Value>, depth: nat) -> Option<Seq<char>> {
        match self.joined(args, depth, args.len()) {
            Some(line) => Some(line + "\n"@),
            None => None,
        }
    }

    /// What is displayed stays displayed the same as text is added to the
    /// heap.
    pub(crate) proof fn lemma_shown_stable(self, more: Seq<String>, value: Value, depth: nat)
        requires
            prefix(self.strings, more),
            self.shown(value, depth).is_some(),
        ensures
            self.with(more).shown(value, depth) == self.shown(value, depth),
        decreases depth, 0nat, 0nat,
    {
        if depth > 0 {
            if let Some(ty) = type_of(value, self.builtins, self.objects, self.values) {
                if let Ok(Value::Native(display, pattern)) = find_slot(
                    self.types,
                    ty,
                    Slot::Display,
                ) {
                    if display == NativeFunction::ListDisplay {
                        if let Value::List(list) = value {
                            if list.live(self.lists) {
                                self.lemma_joined_stable(
                                    more,
                                    self.lists[list@]@,
                                    (depth - 1) as nat,
                                    self.lists[list@]@.len(),
                                );
                            }
                        }
                    }
                }
            }
        }
    }

    /// What is displayed stays displayed the same as text is added to the
    /// heap.
    pub(crate) proof fn lemma_joined_stable(
        self,
        more: Seq<String>,
        items: Seq<Value>,
        depth: nat,
        count: nat,
    )
        requires
            prefix(self.strings, more),
            self.joined(items, depth, count).is_some(),
        ensures
            self.with(more).joined(items, depth, count) == self.joined(items, depth, count),
        decreases depth, 1nat, count,
    {
        if count > 0 {
            self.lemma_joined_stable(more, items, depth, (count - 1) as nat);
            self.lemma_shown_stable(more, items[count - 1], depth);
        }
    }

    /// Where `count` items are displayed, so is every smaller number of
    /// them.
    pub(crate) proof fn lemma_joined_prefix(self, items: Seq<Value>, depth: nat, count: nat, fewer: nat)
        requires
            fewer <= count,
            self.joined(items, depth, count).is_some(),
        ensures
            self.joined(items, depth, fewer).is_some(),
        decreases count,
    {
        if fewer < count {
            self.lemma_joined_prefix(items, depth, (count - 1) as nat, fewer);
        }
    }
}

impl Shelf {
    /// Displaying `value` is settled by built-in functions: the display
    /// slot of its type holds a built-in display function that takes one
    /// argument and applies to the value, and so it is for the items of a
    /// list, down to `depth` nested calls. What a binary64 number shows as
    /// is for the floating-point unit to say; that it shows is settled.
    pub open spec fn showable(self, value: Value, depth: nat) -> bool
        decreases depth, 0nat,
    {
        depth > 0 && match type_of(value, self.builtins, self.objects, self.values) {
            Some(ty) => match find_slot(self.types, ty, Slot::Display) {
                Ok(Value::Native(display, pattern)) => pattern.accepts(1) && self.displayable(
                    display,
                    value,
                    (depth - 1) as nat,
                ),
                _ => false,
            },
            None => false,
        }
    }

    /// The built-in display function `display` applies to `value`.
    pub open spec fn displayable(self, display: NativeFunction, value: Value, depth: nat) -> bool
        decreases depth, 3nat,
    {
        match display {
            NativeFunction::StringDisplay => value matches Value::String(text) && text.live(
                self.strings,
            ),
            NativeFunction::IntegerDisplay => value is Integer,
            NativeFunction::FloatDisplay => value is Float,
            NativeFunction::BoolDisplay => value is Bool,
            NativeFunction::ListDisplay => self.listable(value, depth),
            NativeFunction::FunctionDisplay
            | NativeFunction::FrameDisplay
            | NativeFunction::NativeDisplay
            | NativeFunction::CodeDisplay
            | NativeFunction::NullDisplay
            | NativeFunction::ObjectDisplay
            | NativeFunction::TypeDisplay => true,
            _ => false,
        }
    }

    /// Displaying the list `value` is settled by built-in functions.
    pub open spec fn listable(self, value: Value, depth: nat) -> bool
        decreases depth, 2nat,
    {
        value matches Value::List(list) && list.live(self.lists) && self.all_showable(
            self.lists[list@]@,
            depth,
        )
    }

    /// Displaying each of `items` is settled by built-in functions.
    pub open spec fn all_showable(self, items: Seq<Value>, depth: nat) -> bool
        decreases depth, 1nat,
    {
        forall|i: int| 0 <= i < items.len() ==> self.showable(#[trigger] items[i], depth)
    }

    /// What is settled stays settled as text is added to the heap.
    pub(crate) proof fn lemma_showable_stable(self, more: Seq<String>, value: Value, depth: nat)
        requires
            prefix(self.strings, more),
            self.showable(value, depth),
        ensures
            self.with(more).showable(value, depth),
        decreases depth,
    {
        let ty = type_of(value, self.builtins, self.objects, self.values)->Some_0;
        if let Ok(Value::Native(display, pattern)) = find_slot(self.types, ty, Slot::Display) {
            if display == NativeFunction::ListDisplay {
                let items = self.lists[value->List_0@]@;
                assert forall|i: int| 0 <= i < items.len() implies self.with(more).showable(
                    #[trigger] items[i],
                    (depth - 1) as nat,
                ) by {
                    self.lemma_showable_stable(more, items[i], (depth - 1) as nat);
                }
            }
        }
    }

    /// A value with a text to show is a value whose display is settled.
    pub(crate) proof fn lemma_shown_showable(self, value: Value, depth: nat)
        requires
            self.shown(value, depth).is_some(),
        ensures
            self.showable(value, depth),
        decreases depth, 0nat,
    {
        let ty = type_of(value, self.builtins, self.objects, self.values)->Some_0;
        if let Ok(Value::Native(display, pattern)) = find_slot(self.types, ty, Slot::Display) {
            if display == NativeFunction::ListDisplay {
                let items = self.lists[value->List_0@]@;
                assert forall|i: int| 0 <= i < items.len() implies self.showable(
                    #[trigger] items[i],
                    (depth - 1) as nat,
                ) by {
                    self.lemma_joined_prefix(
                        items,
                        (depth - 1) as nat,
                        items.len(),
                        (i + 1) as nat,
                    );
                    self.lemma_shown_showable(items[i], (depth - 1) as nat);
                }
            }
        }
    }

    /// Items with a text to show are items whose display is settled.
    pub(crate) proof fn lemma_joined_showable(self, items: Seq<Value>, depth: nat)
        requires
            self.joined(items, depth, items.len()).is_some(),
        ensures
            self.all_showable(items, depth),
    {
        assert forall|i: int| 0 <= i < items.len() implies self.showable(
            #[trigger] items[i],
            depth,
        ) by {
            self.lemma_joined_prefix(items, depth, items.len(), (i + 1) as nat);
            self.lemma_shown_showable(items[i], depth);
        }
    }
}

} // verus!

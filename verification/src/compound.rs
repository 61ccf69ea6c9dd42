//! Compound outlines: glyphs put together from other glyphs.
//!
//! The record is a list of components. Each says in its flags whether
//! another one follows. After the last one come instructions, if any
//! component has asked for them.

use vstd::prelude::*;
use crate::component::{
    component_at, lemma_component_consistent, lemma_component_end, Component,
};
use crate::error::{Cause, Error};
use crate::flags;
use crate::instructions::{instructions_at, read_instructions};
use crate::tape::{
    holds, lemma_preceded_by_nothing, lemma_preceded_twice, preceded, viewed, word_at, Parsed, Tape,
};

verus! {

/// A compound-glyph description.
#[derive(Clone, Debug, PartialEq, Eq)]
pub struct Compound {
    components: Vec<Component>,
    instruction_size: u16,
    instructions: Vec<u8>,
}

/// What a [`Compound`] stands for.
pub struct CompoundView {
    /// The components, in the order in which they were met.
    pub components: Seq<Component>,
    /// The number of bytes of instructions.
    pub instruction_size: u16,
    /// The instructions, not interpreted here.
    pub instructions: Seq<u8>,
}

impl View for Compound {
    type V = CompoundView;

    closed spec fn view(&self) -> CompoundView {
        CompoundView {
            components: self.components@,
            instruction_size: self.instruction_size,
            instructions: self.instructions@,
        }
    }
}

/// Some component asks for instructions.
pub open spec fn asks_for_instructions(components: Seq<Component>) -> bool {
    exists|i: int|
        0 <= i < components.len() && flags::Component(
            (#[trigger] components[i]).flags,
        ).has_instructions()
}

/// The components at `at`: one after the other, up to and with the first
/// one that says that no other follows.
pub open spec fn components_at(bytes: Seq<u8>, at: int) -> Parsed<Seq<Component>>
    decreases bytes.len() - at,
{
    let first = component_at(bytes, at);
    match first.outcome {
        Err(error) => Parsed::fail(error, first.end),
        Ok(component) => if flags::Component(component.flags).has_more_components() {
            preceded(seq![component], components_at(bytes, first.end))
        } else {
            Parsed::done(seq![component], first.end)
        },
    }
}

/// A compound outline at `at`: the components, then the instructions if a
/// component asks for them. Where none does, nothing is read behind the
/// components and there are no instructions.
pub open spec fn compound_at(bytes: Seq<u8>, at: int) -> Parsed<CompoundView> {
    let list = components_at(bytes, at);
    match list.outcome {
        Err(error) => Parsed::fail(error, list.end),
        Ok(components) => if asks_for_instructions(components) {
            let code = instructions_at(bytes, list.end);
            match code.outcome {
                Err(error) => Parsed::fail(error, code.end),
                Ok((instruction_size, instructions)) => Parsed::done(
                    CompoundView { components, instruction_size, instructions },
                    code.end,
                ),
            }
        } else {
            Parsed::done(
                CompoundView { components, instruction_size: 0, instructions: Seq::empty() },
                list.end,
            )
        },
    }
}

impl CompoundView {
    /// What holds of every compound outline that was read: there is a
    /// component, the last one says that no other follows and every one in
    /// front of it says that another does, every component is consistent,
    /// there are as many bytes of instructions as the size says, and there
    /// are none where no component asks for them.
    pub open spec fn consistent(self) -> bool {
        &&& self.components.len() > 0
        &&& forall|i: int|
            0 <= i < self.components.len() ==> (flags::Component(
                (#[trigger] self.components[i]).flags,
            ).has_more_components() <==> i + 1 < self.components.len())
        &&& forall|i: int|
            0 <= i < self.components.len() ==> (#[trigger] self.components[i]).consistent()
        &&& self.instructions.len() == self.instruction_size
        &&& !asks_for_instructions(self.components) ==> self.instruction_size == 0
    }
}

/// What holds of a list of components that was read: see
/// [`CompoundView::consistent`].
pub proof fn lemma_components_read(bytes: Seq<u8>, at: int)
    requires
        0 <= at <= bytes.len(),
    ensures
        at <= components_at(bytes, at).end <= bytes.len(),
        components_at(bytes, at).outcome matches Ok(components) ==> {
            &&& components.len() > 0
            &&& forall|i: int|
                0 <= i < components.len() ==> (flags::Component(
                    (#[trigger] components[i]).flags,
                ).has_more_components() <==> i + 1 < components.len())
            &&& forall|i: int|
                0 <= i < components.len() ==> (#[trigger] components[i]).consistent()
        },
    decreases bytes.len() - at,
{
    let first = component_at(bytes, at);
    lemma_component_end(bytes, at);
    lemma_component_consistent(bytes, at);
    if let Ok(component) = first.outcome {
        if flags::Component(component.flags).has_more_components() {
            lemma_components_read(bytes, first.end);
            let rest = components_at(bytes, first.end);
            if let Ok(others) = rest.outcome {
                let components = seq![component] + others;
                assert forall|i: int| 0 <= i < components.len() implies (flags::Component(
                    (#[trigger] components[i]).flags,
                ).has_more_components() <==> i + 1 < components.len()) && components[i].consistent() by {
                    if i > 0 {
                        assert(components[i] == others[i - 1]);
                    }
                }
            }
        }
    }
}

/// Every compound outline that was read is consistent.
pub proof fn lemma_compound_consistent(bytes: Seq<u8>, at: int)
    ensures
        compound_at(bytes, at).outcome matches Ok(compound) ==> compound.consistent(),
{
    if 0 <= at <= bytes.len() {
        lemma_components_read(bytes, at);
    }
}

/// Reading a compound outline moves the cursor forward and never outside
/// the bytes.
pub proof fn lemma_compound_end(bytes: Seq<u8>, at: int)
    requires
        0 <= at <= bytes.len(),
    ensures
        at <= compound_at(bytes, at).end <= bytes.len(),
{
    lemma_components_read(bytes, at);
}

/// A compound outline that was read has no instructions if and only if no
/// component asks for them, unless one asks for them and their size is then
/// given as zero.
pub proof fn lemma_instructions_where_asked(bytes: Seq<u8>, at: int)
    requires
        compound_at(bytes, at).outcome matches Ok(compound) && !(asks_for_instructions(
            compound.components,
        ) && compound.instruction_size == 0),
    ensures
        compound_at(bytes, at).outcome matches Ok(compound) && (compound.instructions.len() == 0
            <==> !asks_for_instructions(compound.components)),
{
    lemma_compound_consistent(bytes, at);
}

/// Wherever the components are refused for a reserved bit, the cursor stands
/// right behind the flags that have it: the reading went no further.
pub proof fn lemma_reserved_component_bits_met(bytes: Seq<u8>, at: int)
    ensures
        components_at(bytes, at).outcome == Err::<Seq<Component>, Error>(
            Error::MalformedGlyph(Cause::ReservedComponentBits),
        ) ==> {
            let end = components_at(bytes, at).end;
            &&& at < end
            &&& holds(bytes, end - 2, 2)
            &&& flags::Component(word_at(bytes, end - 2)).is_invalid()
        },
    decreases bytes.len() - at,
{
    let first = component_at(bytes, at);
    if let Ok(component) = first.outcome {
        if flags::Component(component.flags).has_more_components() {
            lemma_component_end(bytes, at);
            lemma_reserved_component_bits_met(bytes, first.end);
        }
    }
}

/// Flags of a component with a reserved bit set end the reading of the
/// list with the cursor right behind them, where the component is the first
/// of the list.
pub proof fn lemma_reserved_bits_end_components(bytes: Seq<u8>, at: int)
    requires
        holds(bytes, at, 2),
        flags::Component(word_at(bytes, at)).is_invalid(),
    ensures
        components_at(bytes, at) == Parsed::<Seq<Component>>::fail(
            Error::MalformedGlyph(Cause::ReservedComponentBits),
            at + 2,
        ),
        compound_at(bytes, at) == Parsed::<CompoundView>::fail(
            Error::MalformedGlyph(Cause::ReservedComponentBits),
            at + 2,
        ),
{
}

impl Compound {
    /// The components, in the order in which they were met.
    pub fn components(&self) -> (components: &[Component])
        ensures
            components@ == self@.components,
    {
        self.components.as_slice()
    }

    /// The number of bytes of instructions.
    pub fn instruction_size(&self) -> (size: u16)
        ensures
            size == self@.instruction_size,
    {
        self.instruction_size
    }

    /// The instructions, not interpreted here.
    pub fn instructions(&self) -> (instructions: &[u8])
        ensures
            instructions@ == self@.instructions,
    {
        self.instructions.as_slice()
    }

    /// Reads the components of a compound outline and tells whether one of
    /// them asks for instructions.
    pub fn read_components(tape: &mut Tape) -> (result: Result<(Vec<Component>, bool), Error>)
        ensures
            final(tape)@.bytes == old(tape)@.bytes,
            final(tape)@.position == components_at(old(tape)@.bytes, old(tape)@.position).end,
            match result {
                Ok((components, asked)) => {
                    &&& components_at(old(tape)@.bytes, old(tape)@.position).outcome == Ok::<
                        Seq<Component>,
                        Error,
                    >(components@)
                    &&& asked == asks_for_instructions(components@)
                },
                Err(error) => components_at(old(tape)@.bytes, old(tape)@.position).outcome == Err::<
                    Seq<Component>,
                    Error,
                >(error),
            },
    {
        let ghost bytes = tape@.bytes;
        let ghost whole = components_at(bytes, tape@.position);
        let mut components: Vec<Component> = Vec::new();
        let mut has_instructions = false;
        proof {
            lemma_preceded_by_nothing(whole);
        }
        loop
            invariant
                bytes == old(tape)@.bytes,
                tape@.bytes == bytes,
                whole == components_at(bytes, old(tape)@.position),
                whole == preceded(components@, components_at(bytes, tape@.position)),
                has_instructions == asks_for_instructions(components@),
            decreases tape@.bytes.len() - tape@.position,
        {
            let ghost front = components@;
            let ghost at = tape@.position;
            let component = match Component::read(tape) {
                Ok(component) => component,
                Err(error) => {
                    return Err(error);
                },
            };
            let flags = flags::Component(component.flags);
            components.push(component);
            proof {
                assert(components@ =~= front + seq![component]);
                if flags.has_instructions() {
                    assert(flags::Component(components@[front.len() as int].flags).has_instructions());
                } else if asks_for_instructions(components@) {
                    let i = choose|i: int|
                        0 <= i < components@.len() && flags::Component(
                            (#[trigger] components@[i]).flags,
                        ).has_instructions();
                    assert(front[i] == components@[i]);
                } else if asks_for_instructions(front) {
                    let i = choose|i: int|
                        0 <= i < front.len() && flags::Component(
                            (#[trigger] front[i]).flags,
                        ).has_instructions();
                    assert(front[i] == components@[i]);
                }
            }
            has_instructions = has_instructions || flags.has_instructions();
            if !flags.has_more_components() {
                return Ok((components, has_instructions));
            }
            proof {
                lemma_preceded_twice(front, seq![component], components_at(bytes, tape@.position));
            }
        }
    }

    /// Reads a compound outline.
    pub fn read(tape: &mut Tape) -> (result: Result<Compound, Error>)
        ensures
            final(tape)@.bytes == old(tape)@.bytes,
            final(tape)@.position == compound_at(old(tape)@.bytes, old(tape)@.position).end,
            viewed(result) == compound_at(old(tape)@.bytes, old(tape)@.position).outcome,
            result matches Ok(compound) ==> compound@.consistent(),
    {
        proof {
            lemma_compound_consistent(tape@.bytes, tape@.position);
        }
        let (components, has_instructions) = match Compound::read_components(tape) {
            Ok(list) => list,
            Err(error) => {
                return Err(error);
            },
        };
        let (instruction_size, instructions) = if has_instructions {
            match read_instructions(tape) {
                Ok(code) => code,
                Err(error) => {
                    return Err(error);
                },
            }
        } else {
            (0, Vec::new())
        };
        Ok(Compound { components, instruction_size, instructions })
    }
}

impl Default for Compound {
    /// A compound outline without components.
    fn default() -> (compound: Compound)
        ensures
            compound@.components.len() == 0,
            compound@.instruction_size == 0,
            compound@.instructions.len() == 0,
    {
        Compound { components: Vec::new(), instruction_size: 0, instructions: Vec::new() }
    }
}

} // verus!

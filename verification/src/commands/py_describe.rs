//! The lookups of the PyIceberg-compatible `describe`: which of namespace and table
//! are looked up for an identifier, which failures end the command, and what is
//! reported when nothing was found.
use vstd::prelude::*;

use crate::cli::EntityType;
use crate::text::{owned, push_str};

verus! {

/// How one lookup takes part.
#[derive(Debug, Clone, Copy, PartialEq, Eq, Structural)]
pub enum Lookup {
    /// Not made.
    Skip,
    /// Made; its failure ends the command with that failure.
    Required,
    /// Made; its failure is remembered and the command goes on.
    Optional,
}

/// The two lookups, in the order they are made.
#[derive(Debug, Clone, Copy, PartialEq, Eq, Structural)]
pub struct DescribePlan {
    pub namespace: Lookup,
    pub table: Lookup,
}

/// The lookups for an identifier of `parts` parts: a namespace is looked up unless a
/// table was asked for, and fails the command unless any entity was asked for and
/// the identifier could also name a table; a table is looked up when the
/// identifier has at least two parts and no namespace was asked for, and fails the
/// command only when a table was asked for.
pub open spec fn describe_plan_spec(entity: EntityType, parts: nat) -> DescribePlan {
    DescribePlan {
        namespace: if entity == EntityType::Table || parts == 0 {
            Lookup::Skip
        } else if entity == EntityType::Any && parts > 1 {
            Lookup::Optional
        } else {
            Lookup::Required
        },
        table: if entity == EntityType::Namespace || parts <= 1 {
            Lookup::Skip
        } else if entity == EntityType::Any {
            Lookup::Optional
        } else {
            Lookup::Required
        },
    }
}

/// The lookups for an identifier of `parts` parts.
pub fn describe_plan(entity: EntityType, parts: usize) -> (p: DescribePlan)
    ensures
        p == describe_plan_spec(entity, parts as nat),
{
    let namespace = match entity {
        EntityType::Table => Lookup::Skip,
        _ => if parts == 0 {
            Lookup::Skip
        } else {
            match entity {
                EntityType::Any => if parts > 1 {
                    Lookup::Optional
                } else {
                    Lookup::Required
                },
                _ => Lookup::Required,
            }
        },
    };
    let table = match entity {
        EntityType::Namespace => Lookup::Skip,
        _ => if parts <= 1 {
            Lookup::Skip
        } else {
            match entity {
                EntityType::Any => Lookup::Optional,
                _ => Lookup::Required,
            }
        },
    };
    DescribePlan { namespace, table }
}

/// What the command ends with: success when something was found; else the last
/// remembered failure, or a message that nothing exists under the identifier.
pub open spec fn describe_outcome_spec(found: bool, last_error: Option<Seq<char>>, identifier: Seq<char>) -> Result<
    (),
    Seq<char>,
> {
    if found {
        Ok(())
    } else {
        match last_error {
            Some(e) => Err(e),
            None => Err("Table or namespace does not exist: "@ + identifier),
        }
    }
}

/// What the command ends with.
pub fn describe_outcome(found: bool, last_error: Option<String>, identifier: &str) -> (r: Result<(), String>)
    ensures
        describe_outcome_spec(
            found,
            match last_error {
                Some(e) => Some(e@),
                None => None,
            },
            identifier@,
        ) == match r {
            Ok(()) => Ok::<(), Seq<char>>(()),
            Err(s) => Err(s@),
        },
{
    if found {
        return Ok(());
    }
    match last_error {
        Some(e) => Err(e),
        None => {
            let mut s = owned("Table or namespace does not exist: ");
            push_str(&mut s, identifier);
            Err(s)
        },
    }
}

} // verus!

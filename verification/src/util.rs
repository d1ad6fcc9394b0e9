//! Small helpers for grids, named interface elements and shared resources.

use vstd::prelude::*;

use crate::eventhandling::EntityId;

verus! {

/// Turns a 3 by 3 grid a quarter turn: the cell at row `x`, column `y` of the
/// result is a clone of the cell at row `2 - y`, column `x` of `input`.
pub fn rotate_3x3<T: Clone>(input: &[[T; 3]; 3]) -> (result: [[T; 3]; 3])
    ensures
        forall|x: int, y: int|
            0 <= x < 3 && 0 <= y < 3 ==> vstd::pervasive::cloned(
                input@[2 - y]@[x],
                #[trigger] result@[x]@[y],
            ),
{
    let mut result = input.clone();
    let mut x: usize = 0;
    while x < 3
        invariant
            x <= 3,
            forall|a: int, b: int|
                0 <= a < x && 0 <= b < 3 ==> vstd::pervasive::cloned(
                    input@[2 - b]@[a],
                    #[trigger] result@[a]@[b],
                ),
        decreases 3 - x,
    {
        let mut y: usize = 0;
        while y < 3
            invariant
                x < 3,
                y <= 3,
                forall|a: int, b: int|
                    0 <= a < x && 0 <= b < 3 ==> vstd::pervasive::cloned(
                        input@[2 - b]@[a],
                        #[trigger] result@[a]@[b],
                    ),
                forall|b: int|
                    0 <= b < y ==> vstd::pervasive::cloned(
                        input@[2 - b]@[x as int],
                        #[trigger] result@[x as int]@[b],
                    ),
            decreases 3 - y,
        {
            result[x][y] = input[3 - y - 1][x].clone();
            y = y + 1;
        }
        x = x + 1;
    }
    result
}

/// An element of the user interface: the object that shows it and its name.
pub struct UiName {
    pub entity: EntityId,
    pub id: String,
}

/// Element `i` is the first one named `id`.
pub open spec fn is_first_named(names: Seq<UiName>, id: Seq<char>, i: int) -> bool {
    &&& 0 <= i < names.len()
    &&& names[i].id@ == id
    &&& forall|j: int| 0 <= j < i ==> (#[trigger] names[j]).id@ != id
}

/// Finds the object of the first element named `id`.
pub fn find_ui_by_name(id: &str, names: &Vec<UiName>) -> (found: Option<EntityId>)
    ensures
        found matches Some(entity) ==> exists|i: int|
            is_first_named(names@, id@, i) && names@[i].entity == entity,
        found is None ==> forall|j: int|
            0 <= j < names@.len() ==> (#[trigger] names@[j]).id@ != id@,
{
    let wanted = id.to_owned();
    let mut i: usize = 0;
    while i < names.len()
        invariant
            i <= names.len(),
            wanted@ == id@,
            forall|j: int| 0 <= j < i ==> (#[trigger] names@[j]).id@ != id@,
        decreases names.len() - i,
    {
        if names[i].id == wanted {
            assert(is_first_named(names@, id@, i as int));
            return Some(names[i].entity);
        }
        i = i + 1;
    }
    None
}

/// What to do with a value offered for a shared resource.
#[derive(Clone, Copy, Debug, PartialEq, Eq, Structural)]
pub enum SoftAdd {
    /// Register the value, replacing what is registered.
    Add,
    /// Store the value in place of the one that was read.
    Write,
    /// Leave the resource alone.
    Keep,
}

/// Decides what becomes of a value offered for a shared resource.
///
/// `has_value` tells whether a value is registered for the resource. When none
/// is, the caller reads the resource and `holds_default` tells whether what it
/// read equals the default; when one is, `holds_default` is not looked at.
pub fn add_resource_soft(has_value: bool, holds_default: bool) -> (action: SoftAdd)
    ensures
        has_value ==> action == SoftAdd::Add,
        !has_value && holds_default ==> action == SoftAdd::Write,
        !has_value && !holds_default ==> action == SoftAdd::Keep,
{
    if !has_value {
        if holds_default {
            SoftAdd::Write
        } else {
            SoftAdd::Keep
        }
    } else {
        SoftAdd::Add
    }
}

} // verus!

//! The rule that decides which context imported data sources join.
use vstd::prelude::*;

verus! {

/// A context as the import sees it: its id and name.
pub struct ContextRef {
    pub id: i64,
    pub name: String,
}

/// Where imported data sources go.
#[derive(Clone, Debug, PartialEq)]
pub enum ContextChoice {
    /// An existing context, by id.
    Existing(i64),
    /// A new context to be created under this name.
    Create(String),
    /// The import names no context: it is refused.
    Missing,
}

/// Decides the context of an import: the id the caller gave, else the
/// context the file names (an existing one of that name, or a new one),
/// else the id the file gives; with none of these the import is refused.
pub fn choose_import_context(
    requested: Option<i64>,
    file_context_name: Option<String>,
    file_context_id: Option<i64>,
    existing: &Vec<ContextRef>,
) -> (r: ContextChoice)
    ensures
        requested is Some ==> r == ContextChoice::Existing(requested->Some_0),
        requested is None && file_context_name is Some ==> match r {
            ContextChoice::Existing(id) => exists|i: int|
                0 <= i < existing.len() && existing@[i].id == id && existing@[i].name@
                    == file_context_name->Some_0@ && forall|j: int|
                    0 <= j < i ==> #[trigger] existing@[j].name@ != file_context_name->Some_0@,
            ContextChoice::Create(n) => n == file_context_name->Some_0 && forall|i: int|
                0 <= i < existing.len() ==> #[trigger] existing@[i].name@ != n@,
            ContextChoice::Missing => false,
        },
        requested is None && file_context_name is None ==> r == match file_context_id {
            Some(id) => ContextChoice::Existing(id),
            None => ContextChoice::Missing,
        },
{
    if let Some(id) = requested {
        return ContextChoice::Existing(id);
    }
    match file_context_name {
        Some(name) => {
            let mut i: usize = 0;
            while i < existing.len()
                invariant
                    i <= existing.len(),
                    requested is None,
                    file_context_name == Some(name),
                    forall|j: int| 0 <= j < i ==> #[trigger] existing@[j].name@ != name@,
                decreases existing.len() - i,
            {
                if existing[i].name == name {
                    assert(existing@[i as int].name@ == name@);
                    return ContextChoice::Existing(existing[i].id);
                }
                i = i + 1;
            }
            ContextChoice::Create(name)
        },
        None => match file_context_id {
            Some(id) => ContextChoice::Existing(id),
            None => ContextChoice::Missing,
        },
    }
}

} // verus!

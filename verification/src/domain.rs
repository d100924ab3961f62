//! Domain entities and command payloads: labels, todos, the flat joined-row
//! shape consumed by the folding algorithm, and the create/update commands.

use vstd::prelude::*;
use crate::RepositoryError;

verus! {

/// A label entity: a named tag that todos reference but do not own.
#[derive(Debug)]
pub struct Label {
    pub id: i32,
    pub name: String,
}

/// The mathematical value of a `Label`.
pub ghost struct LabelView {
    pub id: int,
    pub name: Seq<char>,
}

impl View for Label {
    type V = LabelView;

    open spec fn view(&self) -> LabelView {
        LabelView { id: self.id as int, name: self.name@ }
    }
}

impl Clone for Label {
    fn clone(&self) -> (r: Self)
        ensures
            r == *self,
    {
        Label { id: self.id, name: self.name.clone() }
    }
}

impl PartialEq for Label {
    fn eq(&self, other: &Self) -> (r: bool) {
        self.id == other.id && self.name == other.name
    }
}

impl vstd::std_specs::cmp::PartialEqSpecImpl for Label {
    open spec fn obeys_eq_spec() -> bool {
        true
    }

    open spec fn eq_spec(&self, other: &Self) -> bool {
        self@ == other@
    }
}

/// A todo entity as returned to callers: its row fields together with the
/// labels reconstructed from the join relation.
#[derive(Debug)]
pub struct TodoEntity {
    pub id: i32,
    pub text: String,
    pub completed: bool,
    pub labels: Vec<Label>,
}

/// The mathematical value of a `TodoEntity`.
pub ghost struct TodoView {
    pub id: int,
    pub text: Seq<char>,
    pub completed: bool,
    pub labels: Seq<LabelView>,
}

impl View for TodoEntity {
    type V = TodoView;

    open spec fn view(&self) -> TodoView {
        TodoView {
            id: self.id as int,
            text: self.text@,
            completed: self.completed,
            labels: self.labels@.map_values(|l: Label| l@),
        }
    }
}

/// The views of a sequence of todo entities.
pub open spec fn todo_views(todos: Seq<TodoEntity>) -> Seq<TodoView> {
    todos.map_values(|t: TodoEntity| t@)
}

/// The views of a sequence of labels.
pub open spec fn label_views(labels: Seq<Label>) -> Seq<LabelView> {
    labels.map_values(|l: Label| l@)
}

/// The mathematical values of a sequence of ids.
pub open spec fn id_views(ids: Seq<i32>) -> Seq<int> {
    ids.map_values(|i: i32| i as int)
}

/// The position of the first todo of the sequence that carries the given id.
pub(crate) fn position_of_todo(todos: &Vec<TodoEntity>, id: i32) -> (r: Option<usize>)
    ensures
        match r {
            Some(i) => i < todos@.len() && todos@[i as int].id == id && (forall|j: int|
                0 <= j < i ==> (#[trigger] todos@[j]).id != id),
            None => forall|j: int| 0 <= j < todos@.len() ==> (#[trigger] todos@[j]).id != id,
        },
{
    let n = todos.len();
    for i in 0..n
        invariant
            n == todos@.len(),
            forall|j: int| 0 <= j < i ==> (#[trigger] todos@[j]).id != id,
    {
        if todos[i].id == id {
            return Some(i);
        }
    }
    None
}

impl Clone for TodoEntity {
    fn clone(&self) -> (r: Self)
        ensures
            r@ == self@,
    {
        let labels = self.labels.clone();
        proof {
            assert(labels@.map_values(|l: Label| l@) =~= self.labels@.map_values(|l: Label| l@));
        }
        TodoEntity {
            id: self.id,
            text: self.text.clone(),
            completed: self.completed,
            labels,
        }
    }
}

impl PartialEq for TodoEntity {
    fn eq(&self, other: &Self) -> (r: bool)
    {
        if !(self.id == other.id && self.text == other.text && self.completed == other.completed) {
            return false;
        }
        if self.labels.len() != other.labels.len() {
            proof {
                assert(self@.labels.len() == self.labels@.len());
                assert(other@.labels.len() == other.labels@.len());
            }
            return false;
        }
        let n = self.labels.len();
        for i in 0..n
            invariant
                n == self.labels@.len(),
                n == other.labels@.len(),
                forall|j: int| 0 <= j < i ==> #[trigger] self.labels@[j]@ == other.labels@[j]@,
        {
            if !(self.labels[i] == other.labels[i]) {
                proof {
                    assert(self@.labels[i as int] == self.labels@[i as int]@);
                    assert(other@.labels[i as int] == other.labels@[i as int]@);
                }
                return false;
            }
        }
        proof {
            assert(self.labels@.map_values(|l: Label| l@) =~= other.labels@.map_values(|l: Label| l@));
        }
        true
    }
}

impl vstd::std_specs::cmp::PartialEqSpecImpl for TodoEntity {
    open spec fn obeys_eq_spec() -> bool {
        true
    }

    open spec fn eq_spec(&self, other: &Self) -> bool {
        self@ == other@
    }
}

/// One row of the left outer join from todos through the join relation to
/// labels: the todo's own columns, and the label columns when the row carries
/// an association (both `None` for a todo without labels).
#[derive(Debug)]
pub struct TodoWithLabelFromRow {
    pub id: i32,
    pub text: String,
    pub completed: bool,
    pub label_id: Option<i32>,
    pub label_name: Option<String>,
}

/// The mathematical value of a joined row.
pub ghost struct RowView {
    pub id: int,
    pub text: Seq<char>,
    pub completed: bool,
    pub label_id: Option<int>,
    pub label_name: Option<Seq<char>>,
}

impl View for TodoWithLabelFromRow {
    type V = RowView;

    open spec fn view(&self) -> RowView {
        RowView {
            id: self.id as int,
            text: self.text@,
            completed: self.completed,
            label_id: match self.label_id {
                Some(i) => Some(i as int),
                None => None,
            },
            label_name: match self.label_name {
                Some(ref n) => Some(n@),
                None => None,
            },
        }
    }
}

impl RowView {
    /// The label association carried by this row, if any; the label counts
    /// only when both of its columns are present, as the left outer join
    /// produces them.
    pub open spec fn label(self) -> Option<LabelView> {
        match (self.label_id, self.label_name) {
            (Some(id), Some(name)) => Some(LabelView { id, name }),
            _ => None,
        }
    }
}

/// The views of a sequence of joined rows.
pub open spec fn row_views(rows: Seq<TodoWithLabelFromRow>) -> Seq<RowView> {
    rows.map_values(|r: TodoWithLabelFromRow| r@)
}

impl TodoWithLabelFromRow {
    /// The label entity carried by this row, if any.
    pub fn label(&self) -> (r: Option<Label>)
        ensures
            match r {
                Some(l) => self@.label() == Some(l@),
                None => self@.label() is None,
            },
    {
        match (&self.label_id, &self.label_name) {
            (Some(id), Some(name)) => Some(Label { id: *id, name: name.clone() }),
            _ => None,
        }
    }
}

/// The command that requests creation of a todo.
#[derive(Debug)]
pub struct CreateTodo {
    pub text: String,
    pub labels: Vec<i32>,
}

/// The mathematical value of a `CreateTodo`.
pub ghost struct CreateTodoView {
    pub text: Seq<char>,
    pub labels: Seq<int>,
}

impl View for CreateTodo {
    type V = CreateTodoView;

    open spec fn view(&self) -> CreateTodoView {
        CreateTodoView {
            text: self.text@,
            labels: self.labels@.map_values(|i: i32| i as int),
        }
    }
}

/// The command that requests a partial update of a todo: an absent field
/// means "leave unchanged".
#[derive(Debug)]
pub struct UpdateTodo {
    pub text: Option<String>,
    pub completed: Option<bool>,
    pub labels: Option<Vec<i32>>,
}

/// The mathematical value of an `UpdateTodo`.
pub ghost struct UpdateTodoView {
    pub text: Option<Seq<char>>,
    pub completed: Option<bool>,
    pub labels: Option<Seq<int>>,
}

impl View for UpdateTodo {
    type V = UpdateTodoView;

    open spec fn view(&self) -> UpdateTodoView {
        UpdateTodoView {
            text: match self.text {
                Some(ref t) => Some(t@),
                None => None,
            },
            completed: self.completed,
            labels: match self.labels {
                Some(ref ls) => Some(ls@.map_values(|i: i32| i as int)),
                None => None,
            },
        }
    }
}

/// Whether a todo text satisfies the length constraints: non-empty and at
/// most one hundred characters.
pub open spec fn text_length_ok(text: Seq<char>) -> bool {
    1 <= text.len() <= 100
}

impl CreateTodo {
    pub fn new(text: String, labels: Vec<i32>) -> (r: Self)
        ensures
            r.text == text,
            r.labels == labels,
    {
        CreateTodo { text, labels }
    }

    /// Whether the command satisfies its field constraints.
    pub open spec fn valid(self) -> bool {
        text_length_ok(self.text@)
    }

    /// Rejects a command whose text is empty or longer than the bound.
    pub fn validate(&self) -> (r: Result<(), RepositoryError>)
        ensures
            r is Ok <==> self.valid(),
            self.text@.len() == 0 ==> (r matches Err(RepositoryError::Validation(m))
                && m@ == "Can not be empty"@),
            self.text@.len() > 100 ==> (r matches Err(RepositoryError::Validation(m))
                && m@ == "Over text length"@),
    {
        validate_text(&self.text)
    }
}

impl UpdateTodo {
    /// Whether the command satisfies its field constraints; an absent text
    /// is not constrained.
    pub open spec fn valid(self) -> bool {
        match self@.text {
            Some(t) => text_length_ok(t),
            None => true,
        }
    }

    /// Rejects a command whose supplied text is empty or longer than the
    /// bound; a command that leaves the text unchanged always passes.
    pub fn validate(&self) -> (r: Result<(), RepositoryError>)
        ensures
            r is Ok <==> self.valid(),
            (match self@.text {
                Some(t) => t.len() == 0,
                None => false,
            }) ==> (r matches Err(RepositoryError::Validation(m)) && m@ == "Can not be empty"@),
            (match self@.text {
                Some(t) => t.len() > 100,
                None => false,
            }) ==> (r matches Err(RepositoryError::Validation(m)) && m@ == "Over text length"@),
    {
        match &self.text {
            Some(t) => validate_text(t),
            None => Ok(()),
        }
    }
}

/// Checks the todo text constraints: non-empty and at most one hundred
/// characters, counted as unicode characters.
fn validate_text(text: &String) -> (r: Result<(), RepositoryError>)
    ensures
        r is Ok <==> text_length_ok(text@),
        text@.len() == 0 ==> (r matches Err(RepositoryError::Validation(m)) && m@ == "Can not be empty"@),
        text@.len() > 100 ==> (r matches Err(RepositoryError::Validation(m)) && m@ == "Over text length"@),
{
    let n = text.as_str().unicode_len();
    if n == 0 {
        Err(RepositoryError::Validation("Can not be empty".to_owned()))
    } else if n > 100 {
        Err(RepositoryError::Validation("Over text length".to_owned()))
    } else {
        Ok(())
    }
}

} // verus!

//! The identity of one task of one stage of one query.

use crate::text::{push_byte_list, push_decimal};
use vstd::prelude::*;
use vstd::string::*;

verus! {

/// Identifies a task plan across the coordinator and its workers.
#[derive(Debug, PartialEq, Eq, Hash)]
pub struct TaskKey {
    /// Bytes of the query identifier.
    pub query_id: Vec<u8>,
    /// Number of the stage inside the query.
    pub stage_id: u64,
    /// Number of the task inside the stage.
    pub task_number: u64,
}

/// What a [`TaskKey`] says.
pub struct TaskKeyView {
    pub query_id: Seq<u8>,
    pub stage_id: u64,
    pub task_number: u64,
}

impl View for TaskKey {
    type V = TaskKeyView;

    open spec fn view(&self) -> TaskKeyView {
        TaskKeyView {
            query_id: self.query_id@,
            stage_id: self.stage_id,
            task_number: self.task_number,
        }
    }
}

/// A task key as it is shown inside messages.
pub open spec fn task_key_text(key: TaskKeyView) -> Seq<char> {
    "TaskKey { query_id: "@ + crate::text::byte_list(key.query_id) + ", stage_id: "@
        + crate::text::decimal(key.stage_id as nat) + ", task_number: "@ + crate::text::decimal(
        key.task_number as nat,
    ) + " }"@
}

impl Clone for TaskKey {
    fn clone(&self) -> (r: TaskKey)
        ensures
            r@ == self@,
    {
        let query_id = self.query_id.clone();
        assert(query_id@ =~= self.query_id@);
        TaskKey { query_id, stage_id: self.stage_id, task_number: self.task_number }
    }
}

impl TaskKey {
    /// Whether two keys name the same task.
    pub fn same(&self, other: &TaskKey) -> (r: bool)
        ensures
            r == (self@ == other@),
    {
        if self.stage_id != other.stage_id || self.task_number != other.task_number
            || self.query_id.len() != other.query_id.len() {
            return false;
        }
        let mut i: usize = 0;
        while i < self.query_id.len()
            invariant
                i <= self.query_id.len(),
                self.query_id.len() == other.query_id.len(),
                forall|j: int| 0 <= j < i ==> self.query_id@[j] == other.query_id@[j],
            decreases self.query_id.len() - i,
        {
            if self.query_id[i] != other.query_id[i] {
                assert(self@.query_id[i as int] != other@.query_id[i as int]);
                return false;
            }
            i += 1;
        }
        assert(self@.query_id =~= other@.query_id);
        true
    }

    /// Appends the key as it is shown inside messages.
    pub fn push_text(&self, out: &mut String)
        ensures
            final(out)@ == old(out)@ + task_key_text(self@),
    {
        out.append("TaskKey { query_id: ");
        push_byte_list(out, &self.query_id);
        out.append(", stage_id: ");
        push_decimal(out, self.stage_id);
        out.append(", task_number: ");
        push_decimal(out, self.task_number);
        out.append(" }");
        assert(out@ =~= old(out)@ + task_key_text(self@));
    }
}

/// A key is shown with all of its parts behind what is there, and two keys are the same exactly if
/// all of their parts are.
pub proof fn keys_are_shown_and_compared_part_by_part(
    key: &TaskKey,
    out: &mut String,
    other: &TaskKey,
    same: bool,
)
    requires
        call_ensures(TaskKey::push_text, (key, out), ()),
        call_ensures(TaskKey::same, (key, other), same),
    ensures
        final(out)@ == old(out)@ + task_key_text(key@),
        task_key_text(key@) == "TaskKey { query_id: "@ + crate::text::byte_list(key.query_id@)
            + ", stage_id: "@ + crate::text::decimal(key.stage_id as nat) + ", task_number: "@
            + crate::text::decimal(key.task_number as nat) + " }"@,
        same <==> key.query_id@ == other.query_id@ && key.stage_id == other.stage_id
            && key.task_number == other.task_number,
{
}

} // verus!

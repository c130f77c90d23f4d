//! The seat a session fills: a project's lead, or one of its workers.

use vstd::prelude::*;

verus! {

/// A seat. It outlives the session that fills it: the id a session runs
/// under may change, the slot does not.
#[derive(Debug, PartialEq, Eq)]
pub struct SessionSlot {
    pub org: String,
    pub project: String,
    /// The worker's label; a lead has none.
    pub label: Option<String>,
}

/// What tells one slot from another.
pub struct SlotId {
    pub org: Seq<char>,
    pub project: Seq<char>,
    pub label: Option<Seq<char>>,
}

impl View for SessionSlot {
    type V = SlotId;

    open spec fn view(&self) -> SlotId {
        SlotId {
            org: self.org@,
            project: self.project@,
            label: option_view(self.label),
        }
    }
}

/// A copy of an optional text.
pub fn clone_option(text: &Option<String>) -> (copy: Option<String>)
    ensures
        copy == *text,
{
    match text {
        Some(text) => Some(text.clone()),
        None => None,
    }
}

/// The characters of an optional text.
pub open spec fn option_view(text: Option<String>) -> Option<Seq<char>> {
    match text {
        Some(text) => Some(text@),
        None => None,
    }
}

/// Whether two optional texts are the same.
pub fn same_option(a: &Option<String>, b: &Option<String>) -> (same: bool)
    ensures
        same == (option_view(*a) == option_view(*b)),
{
    match (a, b) {
        (Some(a), Some(b)) => *a == *b,
        (None, None) => true,
        _ => false,
    }
}

impl Clone for SessionSlot {
    fn clone(&self) -> (copy: Self)
        ensures
            copy == *self,
    {
        SessionSlot {
            org: self.org.clone(),
            project: self.project.clone(),
            label: clone_option(&self.label),
        }
    }
}

/// The lead's slot of a project.
pub open spec fn lead_slot(org: String, project: String) -> SessionSlot {
    SessionSlot { org, project, label: None }
}

/// A worker's slot of a project.
pub open spec fn worker_slot(org: String, project: String, label: String) -> SessionSlot {
    SessionSlot { org, project, label: Some(label) }
}

/// A slot as it is shown.
pub open spec fn slot_text(slot: SessionSlot) -> Seq<char> {
    slot.org@ + "/"@ + slot.project@ + "/"@ + match slot.label {
        Some(label) => label@,
        None => "lead"@,
    }
}

impl SessionSlot {
    pub fn lead(org: &String, project: &String) -> (slot: Self)
        ensures
            slot == lead_slot(*org, *project),
    {
        SessionSlot { org: org.clone(), project: project.clone(), label: None }
    }

    pub fn worker(org: &String, project: &String, label: &String) -> (slot: Self)
        ensures
            slot == worker_slot(*org, *project, *label),
    {
        SessionSlot {
            org: org.clone(),
            project: project.clone(),
            label: Some(label.clone()),
        }
    }

    /// The slot that `label` names in a project: the lead's where there is
    /// none.
    pub fn for_label(org: &String, project: &String, label: &Option<String>) -> (slot: Self)
        ensures
            slot == (SessionSlot { org: *org, project: *project, label: *label }),
    {
        SessionSlot { org: org.clone(), project: project.clone(), label: clone_option(label) }
    }

    pub fn is_lead(&self) -> (lead: bool)
        ensures
            lead == (self.label is None),
    {
        match &self.label {
            Some(_) => false,
            None => true,
        }
    }

    /// The slot as it is shown: its organisation, its project, and its label
    /// or `lead`.
    pub fn display(&self) -> (text: String)
        ensures
            text@ == slot_text(*self),
    {
        let mut text = self.org.clone();
        text.append("/");
        text.append(self.project.as_str());
        text.append("/");
        match &self.label {
            Some(label) => {
                text.append(label.as_str());
            },
            None => {
                text.append("lead");
            },
        }
        text
    }

    /// Whether two slots name the same seat.
    pub fn same(&self, other: &SessionSlot) -> (same: bool)
        ensures
            same == (self@ == other@),
    {
        if self.org != other.org || self.project != other.project {
            return false;
        }
        same_option(&self.label, &other.label)
    }
}

/// Two slots name the same seat exactly where their organisations, their
/// projects and their labels are the same.
pub proof fn slots_are_told_apart(a: SessionSlot, b: SessionSlot)
    ensures
        a@ == b@ <==> a.org@ == b.org@ && a.project@ == b.project@ && (match (a.label, b.label) {
            (Some(x), Some(y)) => x@ == y@,
            (None, None) => true,
            _ => false,
        }),
{
}

/// A lead and a worker of one project sit in different seats, and so do two
/// workers with different labels.
pub proof fn seats_of_a_project_differ(org: String, project: String, label: String, other: String)
    ensures
        lead_slot(org, project)@ != worker_slot(org, project, label)@,
        worker_slot(org, project, label)@ == worker_slot(org, project, other)@ ==> label@
            == other@,
        lead_slot(org, project).label is None,
        worker_slot(org, project, label).label == Some(label),
        lead_slot(org, project).org == org && lead_slot(org, project).project == project,
        worker_slot(org, project, label).org == org && worker_slot(org, project, label).project
            == project,
{
}

/// A shown slot begins with its organisation and its project, and ends with
/// its label or with `lead`.
pub proof fn a_shown_slot_names_its_seat(slot: SessionSlot)
    ensures
        ({
            let n = slot.org@.len() as int;
            let m = slot.project@.len() as int;
            let text = slot_text(slot);
            &&& text.take(n) == slot.org@
            &&& text[n] == '/'
            &&& text.subrange(n + 1, n + 1 + m) == slot.project@
            &&& text[n + 1 + m] == '/'
            &&& text.skip(n + m + 2) == match slot.label {
                Some(label) => label@,
                None => seq!['l', 'e', 'a', 'd'],
            }
        }),
{
    reveal_strlit("/");
    reveal_strlit("lead");
    let n = slot.org@.len() as int;
    let m = slot.project@.len() as int;
    let text = slot_text(slot);
    assert(text.take(n) =~= slot.org@);
    assert(text.subrange(n + 1, n + 1 + m) =~= slot.project@);
    assert("lead"@ =~= seq!['l', 'e', 'a', 'd']);
    assert(text.skip(n + m + 2) =~= match slot.label {
        Some(label) => label@,
        None => "lead"@,
    });
}

} // verus!

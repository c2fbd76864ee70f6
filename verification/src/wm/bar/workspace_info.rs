use vstd::prelude::*;

use crate::config::bar_settings::WorkspaceSegmentSettings;
use crate::error::Error;
use crate::numbers::{decimal, decimal_string};
use crate::text::{chars_of, push_char, str_eq};
use crate::wm::bar::format::{format_fold, format_text, FormatState};
use crate::wm::workspace::WorkspaceId;

verus! {

/// What the workspace info segment shows of one workspace.
#[derive(Debug, Clone)]
pub struct WorkspaceInfoSegment {
    /// Name of the workspace.
    pub name: String,
    /// Workspace number or id.
    pub workspace_id: WorkspaceId,
    /// Is the workspace focused?
    pub focused: bool,
    /// Is the workspace currently open?
    pub open: bool,
    /// Does the workspace seek urgent attention?
    pub urgent: bool,
}

/// A [`WorkspaceInfoSegment`] with its name taken as a character sequence.
pub struct WorkspaceEntry {
    pub name: Seq<char>,
    pub workspace_id: WorkspaceId,
    pub focused: bool,
    pub open: bool,
    pub urgent: bool,
}

impl View for WorkspaceInfoSegment {
    type V = WorkspaceEntry;

    open spec fn view(&self) -> WorkspaceEntry {
        WorkspaceEntry {
            name: self.name@,
            workspace_id: self.workspace_id,
            focused: self.focused,
            open: self.open,
            urgent: self.urgent,
        }
    }
}

/// What the placeholders of a workspace format stand for: `{name}` and `{id}`.
pub open spec fn workspace_subst(name: Seq<char>, id: Seq<char>) -> spec_fn(Seq<char>) -> Seq<char> {
    |b: Seq<char>|
        if b == "name"@ {
            name
        } else if b == "id"@ {
            id
        } else {
            seq![]
        }
}

/// The text of one workspace in the format `fmt`, or `None` when a placeholder is open.
pub open spec fn workspace_text(w: WorkspaceEntry, fmt: Seq<char>) -> Option<Seq<char>> {
    format_text(fmt, true, workspace_subst(w.name, decimal(w.workspace_id as nat)))
}

impl WorkspaceInfoSegment {
    /// A workspace that is neither focused, open nor urgent.
    pub fn new(name: &str, id: u32) -> (r: Self)
        ensures
            r@ == (WorkspaceEntry { name: name@, workspace_id: id, focused: false, open: false, urgent: false }),
    {
        WorkspaceInfoSegment {
            name: String::from_str(name),
            workspace_id: id,
            focused: false,
            open: false,
            urgent: false,
        }
    }

    /// A copy of the entry.
    pub fn duplicate(&self) -> (r: Self)
        ensures
            r@ == self@,
    {
        WorkspaceInfoSegment {
            name: self.name.clone(),
            workspace_id: self.workspace_id,
            focused: self.focused,
            open: self.open,
            urgent: self.urgent,
        }
    }

    /// The workspace written in the format `fmt`: `{name}` is its name, `{id}` its number.
    pub fn value(&self, fmt: &str) -> (r: Result<String, Error>)
        ensures
            match workspace_text(self@, fmt@) {
                Some(t) => r matches Ok(x) && x@ == t,
                None => r matches Err(Error::MissingClosingBrace(x)) && x@ == fmt@,
            },
    {
        let workspace_id = decimal_string(self.workspace_id as u64);
        let ghost subst = workspace_subst(self.name@, workspace_id@);
        let chars = chars_of(fmt);
        let mut output = String::new();
        let mut in_brace = false;
        let mut brace_value = String::new();
        let mut i: usize = 0;
        proof {
            assert(chars@.subrange(0, 0) =~= Seq::<char>::empty());
        }
        while i < chars.len()
            invariant
                chars@ == fmt@,
                subst == workspace_subst(self.name@, workspace_id@),
                workspace_id@ == decimal(self.workspace_id as nat),
                i <= chars@.len(),
                format_fold(chars@.subrange(0, i as int), true, subst) == (FormatState {
                    in_brace,
                    brace: brace_value@,
                    out: output@,
                }),
            decreases chars@.len() - i,
        {
            let c = chars[i];
            proof {
                assert(chars@.subrange(0, i + 1).drop_last() =~= chars@.subrange(0, i as int));
            }
            if !in_brace {
                if c == '{' {
                    in_brace = true;
                } else {
                    push_char(&mut output, c);
                }
            } else if c == '}' {
                in_brace = false;
                let b = brace_value.as_str();
                if str_eq(b, "name") {
                    output.append(self.name.as_str());
                } else if str_eq(b, "id") {
                    output.append(workspace_id.as_str());
                } else {
                    proof {
                        assert(output@ + Seq::<char>::empty() =~= output@);
                    }
                }
                brace_value = String::new();
                proof {
                    assert(brace_value@ =~= Seq::<char>::empty());
                }
            } else {
                push_char(&mut brace_value, c);
            }
            i = i + 1;
        }
        proof {
            assert(chars@.subrange(0, chars@.len() as int) =~= chars@);
        }
        if in_brace {
            return Err(Error::MissingClosingBrace(String::from_str(fmt)));
        }
        Ok(output)
    }
}

/// The workspace entries of a workspace info segment, taken by views.
pub open spec fn entries(v: Seq<WorkspaceInfoSegment>) -> Seq<WorkspaceEntry> {
    v.map_values(|w: WorkspaceInfoSegment| w@)
}

/// The text of a list of workspaces in the format `fmt`, one after the other, or `None`
/// when the format leaves a placeholder open (and there is a workspace).
pub open spec fn workspaces_text(ws: Seq<WorkspaceEntry>, fmt: Seq<char>) -> Option<Seq<char>>
    decreases ws.len(),
{
    if ws.len() == 0 {
        Some(seq![])
    } else {
        match (workspaces_text(ws.drop_last(), fmt), workspace_text(ws.last(), fmt)) {
            (Some(a), Some(b)) => Some(a + b),
            _ => None,
        }
    }
}

/// The workspace info segment: the workspaces of the bar's monitor and how to show them.
#[derive(Clone, Debug)]
pub struct WorkspaceInfo {
    pub workspaces: Vec<WorkspaceInfoSegment>,
    pub settings: WorkspaceSegmentSettings,
}

impl WorkspaceInfo {
    /// A workspace info segment with the given settings and no workspaces.
    pub fn from(s: WorkspaceSegmentSettings) -> (r: Self)
        ensures
            r.workspaces@.len() == 0,
            r.settings@ == s@,
    {
        WorkspaceInfo { workspaces: Vec::new(), settings: s }
    }

    /// A copy of the segment.
    pub fn duplicate(&self) -> (r: Self)
        ensures
            entries(r.workspaces@) == entries(self.workspaces@),
            r.settings@ == self.settings@,
    {
        let mut ws: Vec<WorkspaceInfoSegment> = Vec::new();
        let mut i: usize = 0;
        while i < self.workspaces.len()
            invariant
                i <= self.workspaces@.len(),
                ws@.len() == i,
                forall|j: int| 0 <= j < i ==> #[trigger] ws@[j]@ == self.workspaces@[j]@,
            decreases self.workspaces@.len() - i,
        {
            ws.push(self.workspaces[i].duplicate());
            i = i + 1;
        }
        proof {
            assert(entries(ws@) =~= entries(self.workspaces@));
        }
        WorkspaceInfo { workspaces: ws, settings: self.settings.duplicate() }
    }

    /// Adds a workspace at the end.
    pub fn add(&mut self, input: WorkspaceInfoSegment)
        ensures
            entries(final(self).workspaces@) == entries(old(self).workspaces@).push(input@),
            final(self).settings@ == old(self).settings@,
    {
        let ghost before = entries(self.workspaces@);
        self.workspaces.push(input);
        proof {
            assert(entries(self.workspaces@) =~= before.push(input@));
        }
    }

    /// Marks the workspace `ws` as focused and open, and every other one as neither. With
    /// no workspace nothing changes.
    pub fn set_focused(&mut self, ws: Option<WorkspaceId>) -> (r: Result<(), Error>)
        ensures
            r is Ok,
            final(self).settings@ == old(self).settings@,
            entries(final(self).workspaces@).len() == entries(old(self).workspaces@).len(),
            forall|i: int| 0 <= i < entries(old(self).workspaces@).len() ==> #[trigger] entries(final(self).workspaces@)[i] == match ws {
                Some(id) => WorkspaceEntry {
                    open: entries(old(self).workspaces@)[i].workspace_id == id,
                    focused: entries(old(self).workspaces@)[i].workspace_id == id,
                    ..entries(old(self).workspaces@)[i]
                },
                None => entries(old(self).workspaces@)[i],
            },
    {
        if let Some(workspace_id) = ws {
            let ghost before = entries(self.workspaces@);
            let mut i: usize = 0;
            while i < self.workspaces.len()
                invariant
                    before == entries(old(self).workspaces@),
                    self.settings@ == old(self).settings@,
                    self.workspaces@.len() == before.len(),
                    i <= before.len(),
                    forall|j: int| 0 <= j < i ==> #[trigger] self.workspaces@[j]@ == (WorkspaceEntry {
                        open: before[j].workspace_id == workspace_id,
                        focused: before[j].workspace_id == workspace_id,
                        ..before[j]
                    }),
                    forall|j: int| i <= j < before.len() ==> #[trigger] self.workspaces@[j]@ == before[j],
                decreases before.len() - i,
            {
                let mut segment = self.workspaces[i].duplicate();
                let same = segment.workspace_id == workspace_id;
                segment.open = same;
                segment.focused = same;
                self.workspaces.set(i, segment);
                i = i + 1;
            }
        }
        Ok(())
    }

    /// Marks the workspace `ws` as open and every other one as not open. With no workspace
    /// nothing changes.
    pub fn set_open(&mut self, ws: Option<WorkspaceId>) -> (r: Result<(), Error>)
        ensures
            r is Ok,
            final(self).settings@ == old(self).settings@,
            entries(final(self).workspaces@).len() == entries(old(self).workspaces@).len(),
            forall|i: int| 0 <= i < entries(old(self).workspaces@).len() ==> #[trigger] entries(final(self).workspaces@)[i] == match ws {
                Some(id) => WorkspaceEntry {
                    open: entries(old(self).workspaces@)[i].workspace_id == id,
                    ..entries(old(self).workspaces@)[i]
                },
                None => entries(old(self).workspaces@)[i],
            },
    {
        if let Some(workspace_id) = ws {
            let ghost before = entries(self.workspaces@);
            let mut i: usize = 0;
            while i < self.workspaces.len()
                invariant
                    before == entries(old(self).workspaces@),
                    self.settings@ == old(self).settings@,
                    self.workspaces@.len() == before.len(),
                    i <= before.len(),
                    forall|j: int| 0 <= j < i ==> #[trigger] self.workspaces@[j]@ == (WorkspaceEntry {
                        open: before[j].workspace_id == workspace_id,
                        ..before[j]
                    }),
                    forall|j: int| i <= j < before.len() ==> #[trigger] self.workspaces@[j]@ == before[j],
                decreases before.len() - i,
            {
                let mut segment = self.workspaces[i].duplicate();
                segment.open = segment.workspace_id == workspace_id;
                self.workspaces.set(i, segment);
                i = i + 1;
            }
        }
        Ok(())
    }

    /// The text of all workspaces in the segment's format, one after the other.
    pub fn _get_text(&self) -> (r: Result<String, Error>)
        ensures
            match workspaces_text(entries(self.workspaces@), self.settings@.format) {
                Some(t) => r matches Ok(x) && x@ == t,
                None => r matches Err(Error::MissingClosingBrace(x)) && x@ == self.settings@.format,
            },
    {
        let ghost es = entries(self.workspaces@);
        let ghost fmt = self.settings@.format;
        let mut buffer = String::new();
        let mut i: usize = 0;
        proof {
            assert(es.subrange(0, 0) =~= Seq::<WorkspaceEntry>::empty());
        }
        while i < self.workspaces.len()
            invariant
                es == entries(self.workspaces@),
                fmt == self.settings@.format,
                i <= es.len(),
                workspaces_text(es.subrange(0, i as int), fmt) == Some(buffer@),
            decreases es.len() - i,
        {
            proof {
                assert(es.subrange(0, i + 1).drop_last() =~= es.subrange(0, i as int));
            }
            match self.workspaces[i].value(self.settings.format.as_str()) {
                Ok(v) => buffer.append(v.as_str()),
                Err(e) => {
                    proof {
                        lemma_workspaces_text_stops(es, i as int + 1, fmt);
                    }
                    return Err(e);
                },
            }
            i = i + 1;
        }
        proof {
            assert(es.subrange(0, es.len() as int) =~= es);
        }
        Ok(buffer)
    }
}

/// Once a workspace cannot be written, neither can a longer list.
proof fn lemma_workspaces_text_stops(ws: Seq<WorkspaceEntry>, k: int, fmt: Seq<char>)
    requires
        0 < k <= ws.len(),
        workspaces_text(ws.subrange(0, k), fmt) is None,
    ensures
        workspaces_text(ws, fmt) is None,
    decreases ws.len(),
{
    if ws.len() > k {
        assert(ws.drop_last().subrange(0, k) =~= ws.subrange(0, k));
        lemma_workspaces_text_stops(ws.drop_last(), k, fmt);
    } else {
        assert(ws.subrange(0, k) =~= ws);
    }
}

} // verus!

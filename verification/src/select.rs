//! Choosing the request scripts of a file that are to run.

use crate::model::{File, FileView, RequestScript, SelectionView, Unprocessed};
use crate::text::decimal_string;
use vstd::prelude::*;
use vstd::string::StringExecFns;

verus! {

/// No request script of the file holds the line that was asked for.
#[derive(Debug, PartialEq, Eq, Clone, Copy)]
pub struct NotFound {
    pub offset: usize,
}

impl NotFound {
    /// The message for the user.
    pub open spec fn message_text(self) -> Seq<char> {
        "no request found at line "@ + crate::text::decimal(self.offset as nat)
    }

    /// The message for the user.
    pub fn message(&self) -> (text: String)
        ensures
            text@ == self.message_text(),
    {
        let mut text = "no request found at line ".to_owned();
        let line = decimal_string(self.offset as u64);
        text.append(line.as_str());
        text
    }
}

impl SelectionView {
    /// Whether the span holds the given line: it begins on or before that
    /// line and ends on a later one.
    pub open spec fn holds_line(self, line: usize) -> bool {
        self.start.line <= line < self.end.line
    }
}

/// Whether a request script is chosen: every script where all are asked
/// for, else the script whose span holds the line.
pub open spec fn chosen(script: RequestScript<Unprocessed>, offset: usize, all: bool) -> bool {
    all || script.selection@.holds_line(offset)
}

/// The request scripts that are chosen, in the order of the file.
pub open spec fn selected(scripts: Seq<RequestScript<Unprocessed>>, offset: usize, all: bool) -> Seq<
    RequestScript<Unprocessed>,
> {
    scripts.filter(|script: RequestScript<Unprocessed>| chosen(script, offset, all))
}

/// Whether the request scripts of a file stand one after the other: none
/// begins on a line before the one on which the script before it ends.
pub open spec fn in_order(file: FileView) -> bool {
    forall|i: int, j: int|
        0 <= i < j < file.request_scripts.len() ==> (
        #[trigger] file.request_scripts[i]).selection.end.line <= (
        #[trigger] file.request_scripts[j]).selection.start.line
}

/// What the references point to.
pub open spec fn targets(found: Seq<&RequestScript<Unprocessed>>) -> Seq<RequestScript<Unprocessed>> {
    Seq::new(found.len(), |i: int| *found[i])
}

impl File {
    /// The request scripts to run, in the order of the file: all of them
    /// where `all` is set, whatever the offset; else those whose span holds
    /// line `offset`. That no script holds the line is an error. In a file
    /// whose scripts stand one after the other, as in every file that was
    /// read from a source, one script at most holds a line.
    pub fn request_scripts(&self, offset: usize, all: bool) -> (result: Result<
        Vec<&RequestScript<Unprocessed>>,
        NotFound,
    >)
        ensures
            match result {
                Ok(found) => targets(found@) == selected(self.request_scripts@, offset, all) && (all
                    || found.len() > 0),
                Err(error) => !all && selected(self.request_scripts@, offset, all).len() == 0
                    && error.offset == offset,
            },
            all ==> result is Ok && targets(result->Ok_0@) == self.request_scripts@,
            !all && in_order(self@) && result is Ok ==> result->Ok_0.len() == 1,
    {
        let ghost keep = |script: RequestScript<Unprocessed>| chosen(script, offset, all);
        let mut found: Vec<&RequestScript<Unprocessed>> = Vec::new();
        let ghost mut first: int = 0;
        let mut i: usize = 0;
        proof {
            assert(self.request_scripts@.take(0) =~= Seq::empty());
            reveal(Seq::filter);
            assert(targets(found@) =~= self.request_scripts@.take(0).filter(keep));
        }
        while i < self.request_scripts.len()
            invariant
                i <= self.request_scripts.len(),
                keep == |script: RequestScript<Unprocessed>| chosen(script, offset, all),
                targets(found@) == self.request_scripts@.take(i as int).filter(keep),
                all ==> targets(found@) == self.request_scripts@.take(i as int),
                !all && in_order(self@) ==> found.len() <= 1,
                !all && found.len() > 0 ==> 0 <= first < i && self.request_scripts@[first].selection@.holds_line(
                    offset,
                ),
            decreases self.request_scripts.len() - i,
        {
            let script = &self.request_scripts[i];
            proof {
                let before = self.request_scripts@.take(i as int);
                assert(self.request_scripts@.take(i + 1) =~= before.push(*script));
                before.lemma_filter_push(*script, keep);
            }
            let ghost old_targets = targets(found@);
            if all || (script.selection.start.line <= offset && offset < script.selection.end.line) {
                proof {
                    if !all && in_order(self@) && found.len() > 0 {
                        assert(self@.request_scripts[first].selection.end.line
                            <= self@.request_scripts[i as int].selection.start.line);
                    }
                    first = i as int;
                }
                found.push(script);
                assert(targets(found@) =~= old_targets.push(*script));
            }
            i += 1;
        }
        assert(self.request_scripts@.take(i as int) =~= self.request_scripts@);
        if found.len() == 0 && !all {
            Err(NotFound { offset })
        } else {
            Ok(found)
        }
    }
}

} // verus!

//! The status bar of a commit as lines of text.

use crate::commit::hash_display_of;
use crate::commit::message_lines_of;
use crate::commit::CommitMetadata;
use crate::diff::texts;
use vstd::prelude::*;

verus! {

/// What a line of the status bar tells.
#[derive(Debug, Clone, Copy, PartialEq, Eq, Structural)]
pub enum StatusField {
    Hash,
    Author,
    Date,
    Message,
    NoCommit,
}

/// One line of the status bar: a label and the text after it.
#[derive(Debug, Clone, PartialEq, Eq)]
pub struct StatusLine {
    pub field: StatusField,
    pub label: String,
    pub text: String,
}

/// Mathematical model of a `StatusLine`.
pub struct StatusLineView {
    pub field: StatusField,
    pub label: Seq<char>,
    pub text: Seq<char>,
}

impl View for StatusLine {
    type V = StatusLineView;

    open spec fn view(&self) -> StatusLineView {
        StatusLineView { field: self.field, label: self.label@, text: self.text@ }
    }
}

/// The models of a sequence of status lines.
pub open spec fn status_line_views(lines: Seq<StatusLine>) -> Seq<StatusLineView> {
    Seq::new(lines.len(), |i: int| lines[i]@)
}

/// The line for one line of the message.
pub open spec fn message_line(text: Seq<char>) -> StatusLineView {
    StatusLineView { field: StatusField::Message, label: Seq::empty(), text }
}

/// The lines shown above the message: hash and author, and the date unless
/// the record stands for the working tree.
pub open spec fn header_lines(
    hash: Seq<char>,
    author: Seq<char>,
    date_text: Seq<char>,
) -> Seq<StatusLineView> {
    let head = seq![
        StatusLineView { field: StatusField::Hash, label: "hash: "@, text: hash_display_of(hash) },
        StatusLineView { field: StatusField::Author, label: "author: "@, text: author },
    ];
    if hash == "working-tree"@ {
        head
    } else {
        head.push(StatusLineView { field: StatusField::Date, label: "date: "@, text: date_text })
    }
}

/// The lines of the status bar for a commit: the header, then each line of
/// the message that holds more than whitespace.
pub open spec fn commit_lines(
    hash: Seq<char>,
    author: Seq<char>,
    message: Seq<char>,
    date_text: Seq<char>,
) -> Seq<StatusLineView> {
    header_lines(hash, author, date_text) + Seq::new(
        message_lines_of(message).len(),
        |i: int| message_line(message_lines_of(message)[i]),
    )
}

/// The single line shown while no commit is loaded.
pub open spec fn no_commit_lines() -> Seq<StatusLineView> {
    seq![
        StatusLineView {
            field: StatusField::NoCommit,
            label: Seq::empty(),
            text: "No commit loaded"@,
        },
    ]
}

/// The status bar.
#[derive(Debug, Clone, Copy, PartialEq, Eq, Structural)]
pub struct StatusBarPane;

impl StatusBarPane {
    /// The lines of the status bar. `date_text` is the commit date as it is
    /// to be shown.
    pub fn status_lines(&self, metadata: Option<&CommitMetadata>, date_text: &str) -> (res: Vec<
        StatusLine,
    >)
        ensures
            metadata is None ==> status_line_views(res@) == no_commit_lines(),
            metadata is Some ==> status_line_views(res@) == commit_lines(
                metadata->Some_0.hash@,
                metadata->Some_0.author@,
                metadata->Some_0.message@,
                date_text@,
            ),
    {
        let meta = match metadata {
            Some(meta) => meta,
            None => {
                let mut lines: Vec<StatusLine> = Vec::new();
                lines.push(
                    StatusLine {
                        field: StatusField::NoCommit,
                        label: String::new(),
                        text: "No commit loaded".to_owned(),
                    },
                );
                assert(status_line_views(lines@) =~= no_commit_lines());
                return lines;
            },
        };
        let mut lines: Vec<StatusLine> = Vec::new();
        lines.push(
            StatusLine {
                field: StatusField::Hash,
                label: "hash: ".to_owned(),
                text: meta.hash_display(),
            },
        );
        lines.push(
            StatusLine {
                field: StatusField::Author,
                label: "author: ".to_owned(),
                text: meta.author.clone(),
            },
        );
        if !meta.is_working_tree() {
            lines.push(
                StatusLine {
                    field: StatusField::Date,
                    label: "date: ".to_owned(),
                    text: date_text.to_owned(),
                },
            );
        }
        let ghost header = header_lines(meta.hash@, meta.author@, date_text@);
        assert(status_line_views(lines@) =~= header);
        let shown = meta.message_lines();
        let ghost all = message_lines_of(meta.message@);
        let mut i: usize = 0;
        while i < shown.len()
            invariant
                i <= shown.len(),
                texts(shown@) == all,
                status_line_views(lines@) == header + Seq::new(
                    i as nat,
                    |k: int| message_line(all[k]),
                ),
            decreases shown.len() - i,
        {
            let ghost before = status_line_views(lines@);
            lines.push(
                StatusLine {
                    field: StatusField::Message,
                    label: String::new(),
                    text: shown[i].clone(),
                },
            );
            proof {
                assert(texts(shown@)[i as int] == shown[i as int]@);
                assert(status_line_views(lines@) =~= before.push(message_line(all[i as int])));
                assert(before.push(message_line(all[i as int])) =~= header + Seq::new(
                    (i + 1) as nat,
                    |k: int| message_line(all[k]),
                ));
            }
            i += 1;
        }
        assert(texts(shown@).len() == shown.len());
        lines
    }
}

} // verus!

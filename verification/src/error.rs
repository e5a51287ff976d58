//! The errors that the library reports.

use crate::text::{append_str, extend_chars, from_chars, to_chars};
use vstd::prelude::*;

verus! {

/// A field of a project that must be filled in before a package is built.
#[derive(Clone, Copy, Debug, PartialEq, Eq, Structural)]
pub enum RequiredField {
    Name,
    ApplicationName,
    Version,
    Author,
    Description,
    PackageName,
}

/// The text by which a required field is shown to the user.
pub open spec fn field_label(f: RequiredField) -> Seq<char> {
    match f {
        RequiredField::Name => "Project Name"@,
        RequiredField::ApplicationName => "Application Name"@,
        RequiredField::Version => "Version"@,
        RequiredField::Author => "Author"@,
        RequiredField::Description => "Description"@,
        RequiredField::PackageName => "Package Name"@,
    }
}

impl RequiredField {
    /// The text by which the field is shown to the user.
    pub fn label(self) -> (r: String)
        ensures
            r@ == field_label(self),
    {
        match self {
            RequiredField::Name => "Project Name".to_owned(),
            RequiredField::ApplicationName => "Application Name".to_owned(),
            RequiredField::Version => "Version".to_owned(),
            RequiredField::Author => "Author".to_owned(),
            RequiredField::Description => "Description".to_owned(),
            RequiredField::PackageName => "Package Name".to_owned(),
        }
    }
}

/// Why an operation of the library did not succeed.
#[derive(Clone, Debug, PartialEq, Eq)]
pub enum LisError {
    /// A file or directory could not be read, written, copied or found.
    Io { context: String, path: String, cause: String },
    /// A text did not have the form it was expected to have.
    Format { detail: String },
    /// Required fields of a project were left empty.
    Validation { missing: Vec<RequiredField> },
    /// An archive could not be unpacked, or lacked its metadata document.
    Extraction { detail: String },
}

/// The view of `LisError`: what it holds, as the contracts speak of it.
pub enum LisErrorView {
    Io { context: Seq<char>, path: Seq<char>, cause: Seq<char> },
    Format { detail: Seq<char> },
    Validation { missing: Seq<RequiredField> },
    Extraction { detail: Seq<char> },
}

impl View for LisError {
    type V = LisErrorView;

    open spec fn view(&self) -> LisErrorView {
        match self {
            LisError::Io { context, path, cause } => LisErrorView::Io {
                context: context@,
                path: path@,
                cause: cause@,
            },
            LisError::Format { detail } => LisErrorView::Format { detail: detail@ },
            LisError::Validation { missing } => LisErrorView::Validation { missing: missing@ },
            LisError::Extraction { detail } => LisErrorView::Extraction { detail: detail@ },
        }
    }
}

/// One line per missing field, each behind a bullet.
pub open spec fn bullet_lines(missing: Seq<RequiredField>) -> Seq<char>
    decreases missing.len(),
{
    if missing.len() == 0 {
        Seq::empty()
    } else {
        bullet_lines(missing.drop_last()) + "\n\u{2022} "@ + field_label(missing.last())
            + " is required"@
    }
}

/// The text that is shown to the user for an error.
pub open spec fn error_text(e: LisErrorView) -> Seq<char> {
    match e {
        LisErrorView::Io { context, path, cause } => context + " ("@ + path + "): "@ + cause,
        LisErrorView::Format { detail } => detail,
        LisErrorView::Validation { missing } => "Please fill in all required fields:"@
            + bullet_lines(missing),
        LisErrorView::Extraction { detail } => detail,
    }
}

impl LisError {
    /// The text that is shown to the user: the missing fields as one bulleted
    /// list, any other error with its cause.
    pub fn message(&self) -> (r: String)
        ensures
            r@ == error_text(self@),
    {
        match self {
            LisError::Io { context, path, cause } => {
                let a = append_str(context.as_str(), " (");
                let b = append_str(a.as_str(), path.as_str());
                let c = append_str(b.as_str(), "): ");
                append_str(c.as_str(), cause.as_str())
            },
            LisError::Format { detail } => detail.clone(),
            LisError::Validation { missing } => {
                let mut out = to_chars("Please fill in all required fields:");
                let mut i: usize = 0;
                while i < missing.len()
                    invariant
                        i <= missing.len(),
                        out@ == "Please fill in all required fields:"@ + bullet_lines(
                            missing@.take(i as int),
                        ),
                    decreases missing.len() - i,
                {
                    let ghost before = out@;
                    let bullet = to_chars("\n\u{2022} ");
                    extend_chars(&mut out, &bullet);
                    let label = missing[i].label();
                    let label_chars = to_chars(label.as_str());
                    extend_chars(&mut out, &label_chars);
                    let tail = to_chars(" is required");
                    extend_chars(&mut out, &tail);
                    proof {
                        let next = missing@.take(i + 1);
                        assert(next.drop_last() == missing@.take(i as int));
                        assert(next.last() == missing@[i as int]);
                        assert(out@ == "Please fill in all required fields:"@ + bullet_lines(next));
                    }
                    i = i + 1;
                }
                assert(missing@.take(missing@.len() as int) == missing@);
                from_chars(&out)
            },
            LisError::Extraction { detail } => detail.clone(),
        }
    }
}

} // verus!

//! Model of a parsed multipart form and the header logic that decides
//! whether a request carries one. The byte-level parsing of a request body
//! is an external collaborator; this module owns the data shape handed
//! over the boundary and the content-type header analysis.

use vstd::prelude::*;

use crate::assoc::StrAssoc;
use crate::strutil::{find_seq, find_sub, starts_with_str};

verus! {

/// Description of one uploaded file as saved by the form parser: where it
/// was stored, the client-supplied name, and its size in bytes.
pub struct SavedFile {
    pub path: String,
    pub filename: Option<String>,
    pub size: u64,
}

/// Ghost image of a `SavedFile`.
pub struct SavedFileModel {
    pub path: Seq<char>,
    pub filename: Option<Seq<char>>,
    pub size: u64,
}

impl DeepView for SavedFile {
    type V = SavedFileModel;

    open spec fn deep_view(&self) -> SavedFileModel {
        SavedFileModel {
            path: self.path@,
            filename: match self.filename {
                Some(ref n) => Some(n@),
                None => None,
            },
            size: self.size,
        }
    }
}

/// One field of a multipart form: either an inline UTF-8 value or a file
/// saved to temporary storage.
pub enum FormField {
    Value(String),
    File(SavedFile),
}

/// Ghost image of a `FormField`.
pub enum FormFieldModel {
    Value(Seq<char>),
    File(SavedFileModel),
}

impl DeepView for FormField {
    type V = FormFieldModel;

    open spec fn deep_view(&self) -> FormFieldModel {
        match self {
            FormField::Value(s) => FormFieldModel::Value(s@),
            FormField::File(f) => FormFieldModel::File(f.deep_view()),
        }
    }
}

/// A parsed multipart form: field name to field, plus the directory the
/// parser saved uploaded files under.
pub struct MultipartForm {
    pub entries: StrAssoc<FormField>,
    pub save_dir: String,
}

/// Extracts a file from a multipart form if the key exists and is a file.
/// The entry is consumed either way, as taking ownership of the file is
/// the point of the call.
pub fn extract_file(form: &mut MultipartForm, field: &str) -> (r: Option<SavedFile>)
    ensures
        final(form).entries@ == old(form).entries@.remove(field@),
        final(form).save_dir == old(form).save_dir,
        match r {
            Some(f) => old(form).entries@.contains_key(field@) && old(form).entries@[field@]
                == FormFieldModel::File(f.deep_view()),
            None => !(old(form).entries@.contains_key(field@) && old(form).entries@[field@]
                is File),
        },
{
    match form.entries.remove(field) {
        Some(FormField::File(file)) => Some(file),
        Some(_) => None,
        None => None,
    }
}

/// The media-type prefix that marks a request body as a multipart form.
pub open spec fn multipart_prefix() -> Seq<char> {
    "multipart/form-data"@
}

/// The separator in front of the boundary parameter of the content-type
/// header.
pub open spec fn boundary_sep() -> Seq<char> {
    "; boundary="@
}

/// The piece of `s` between the first occurrence of `sep` and the second
/// occurrence or the end, if `sep` occurs at all.
pub open spec fn split_second(s: Seq<char>, sep: Seq<char>) -> Option<Seq<char>> {
    match find_seq(s, sep) {
        None => None,
        Some(i) => {
            let rest = s.skip(i + sep.len() as int);
            match find_seq(rest, sep) {
                None => Some(rest),
                Some(j) => Some(rest.take(j)),
            }
        },
    }
}

/// The first header value that announces a multipart form.
pub open spec fn first_multipart_value(vals: Seq<Seq<char>>) -> Option<Seq<char>>
    decreases vals.len(),
{
    if vals.len() == 0 {
        None
    } else if multipart_prefix().len() <= vals[0].len() && vals[0].take(
        multipart_prefix().len() as int,
    ) == multipart_prefix() {
        Some(vals[0])
    } else {
        first_multipart_value(vals.skip(1))
    }
}

/// The multipart boundary announced by a list of content-type header
/// values, if one is announced.
pub open spec fn spec_boundary(vals: Seq<Seq<char>>) -> Option<Seq<char>> {
    match first_multipart_value(vals) {
        None => None,
        Some(v) => split_second(v, boundary_sep()),
    }
}

/// Exec counterpart of `split_second`.
fn split_second_exec(s: &str, sep: &str) -> (r: Option<String>)
    ensures
        match r {
            Some(out) => split_second(s@, sep@) == Some(out@),
            None => split_second(s@, sep@) is None,
        },
{
    let slen: usize = s.unicode_len();
    let seplen: usize = sep.unicode_len();
    match find_sub(s, sep) {
        None => None,
        Some(i) => {
            proof {
                crate::strutil::lemma_find_seq(s@, sep@);
            }
            let start: usize = i + seplen;
            let rest = s.substring_char(start, slen);
            proof {
                assert(rest@ =~= s@.skip(start as int));
            }
            match find_sub(rest, sep) {
                None => Some(rest.to_owned()),
                Some(j) => {
                    proof {
                        crate::strutil::lemma_find_seq(rest@, sep@);
                    }
                    let piece = rest.substring_char(0, j);
                    proof {
                        assert(piece@ =~= s@.skip(start as int).take(j as int));
                    }
                    Some(piece.to_owned())
                },
            }
        },
    }
}

/// The multipart boundary named by the given content-type header values,
/// if any value announces a multipart form with a boundary parameter.
pub fn parse_boundary(values: &Vec<String>) -> (r: Option<String>)
    ensures
        match r {
            Some(b) => spec_boundary(values.deep_view()) == Some(b@),
            None => spec_boundary(values.deep_view()) is None,
        },
{
    let ghost vals = values.deep_view();
    let n: usize = values.len();
    let mut i: usize = 0;
    proof {
        assert(vals.skip(0) =~= vals);
    }
    while i < n
        invariant
            i <= n,
            n == values@.len(),
            vals == values.deep_view(),
            vals.len() == n,
            forall|l: int| 0 <= l < vals.len() ==> vals[l] == values@[l]@,
            first_multipart_value(vals) == first_multipart_value(vals.skip(i as int)),
        decreases n - i,
    {
        proof {
            assert(vals.skip(i as int)[0] == vals[i as int]);
            assert(vals.skip(i as int).skip(1) =~= vals.skip(i + 1));
        }
        if starts_with_str(values[i].as_str(), "multipart/form-data") {
            return split_second_exec(values[i].as_str(), "; boundary=");
        }
        i += 1;
    }
    proof {
        assert(vals.skip(i as int) =~= Seq::<Seq<char>>::empty());
    }
    None
}

/// The pipeline step that recognizes multipart uploads. It decides from
/// the request's content-type header whether a multipart body was
/// announced and under which boundary; reading and saving the body is
/// the transport's work.
pub struct MultipartParser;

impl MultipartParser {
    /// The multipart boundary the request announces, if any content-type
    /// header value announces one.
    pub fn boundary(req: &crate::request::Request) -> (r: Option<String>)
        ensures
            match r {
                Some(b) => req@.headers.contains_key("content-type"@) && spec_boundary(
                    req@.headers["content-type"@],
                ) == Some(b@),
                None => !req@.headers.contains_key("content-type"@) || spec_boundary(
                    req@.headers["content-type"@],
                ) is None,
            },
    {
        match req.headers.get("content-type") {
            Some(values) => parse_boundary(values),
            None => None,
        }
    }
}

} // verus!

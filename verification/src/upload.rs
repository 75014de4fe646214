//! Uploaded files: the extension a file gets, where it is stored and under
//! which url it is served, and which stored file a url names.
use vstd::prelude::*;

use crate::ids::{is_scru128_text, new_id};
use crate::text::{replace_all, spec_replace_all, str_eq};

verus! {

/// The file extension stored for an uploaded file of the given content type.
pub open spec fn spec_file_type(content_type: Seq<char>) -> Seq<char> {
    if content_type == "image/jpeg"@ {
        ".jpg"@
    } else if content_type == "image/png"@ {
        ".png"@
    } else if content_type == "image/gif"@ {
        ".gif"@
    } else {
        Seq::empty()
    }
}

/// Maps an upload's content type to the extension its stored file gets.
pub fn get_file_type(content_type: &str) -> (ext: String)
    ensures
        ext@ == spec_file_type(content_type@),
{
    if str_eq(content_type, "image/jpeg") {
        ".jpg".to_owned()
    } else if str_eq(content_type, "image/png") {
        ".png".to_owned()
    } else if str_eq(content_type, "image/gif") {
        ".gif".to_owned()
    } else {
        let e = String::new();
        assert(e@ =~= Seq::<char>::empty());
        e
    }
}

/// Where an upload goes.
pub struct UploadTarget {
    /// The directory the file is stored in.
    pub dir: String,
    /// The stored file's name.
    pub file_name: String,
    /// The stored file's path.
    pub file_path: String,
    /// The url the file is served under.
    pub url_path: String,
}

/// The name of a stored file: the day, `-`, its id and its extension.
pub open spec fn spec_file_name(day: Seq<char>, id: Seq<char>, ext: Seq<char>) -> Seq<char> {
    day + "-"@ + id + ext
}

/// Where an upload of the given content type goes in the month `month`
/// (`YYYY-MM`) on day `day` (`DD`): a directory per month under the upload
/// directory, a fresh id in the file name, and the same layout under the
/// upload url.
pub fn upload_target(upload_dir: &str, upload_url: &str, month: &str, day: &str, content_type: &str) -> (t: UploadTarget)
    ensures
        t.dir@ == upload_dir@ + "/"@ + month@,
        exists|id: Seq<char>|
            is_scru128_text(id) && t.file_name@ == #[trigger] spec_file_name(day@, id, spec_file_type(content_type@)),
        t.file_path@ == t.dir@ + "/"@ + t.file_name@,
        t.url_path@ == upload_url@ + "/"@ + month@ + "/"@ + t.file_name@,
{
    let mut dir = upload_dir.to_owned();
    dir.append("/");
    dir.append(month);
    let mut url_dir = upload_url.to_owned();
    url_dir.append("/");
    url_dir.append(month);
    let ext = get_file_type(content_type);
    let id = new_id();
    let mut file_name = day.to_owned();
    file_name.append("-");
    file_name.append(id.as_str());
    file_name.append(ext.as_str());
    let mut file_path = dir.clone();
    file_path.append("/");
    file_path.append(file_name.as_str());
    let mut url_path = url_dir;
    url_path.append("/");
    url_path.append(file_name.as_str());
    proof {
        assert(file_name@ == spec_file_name(day@, id@, spec_file_type(content_type@)));
    }
    UploadTarget { dir, file_name, file_path, url_path }
}

/// The stored file a url names: the url with the upload url replaced by
/// the upload directory wherever it occurs.
pub fn delete_target(url_path: &str, upload_url: &str, upload_dir: &str) -> (p: String)
    ensures
        p@ == spec_replace_all(url_path@, upload_url@, upload_dir@),
{
    replace_all(url_path, upload_url, upload_dir)
}

/// Whether `pat` occurs in `s`.
pub open spec fn occurs_in(pat: Seq<char>, s: Seq<char>) -> bool {
    exists|i: int| 0 <= i && i + pat.len() <= s.len() && #[trigger] s.subrange(i, i + pat.len()) == pat
}

proof fn lemma_replace_absent(s: Seq<char>, pat: Seq<char>, rep: Seq<char>)
    requires
        pat.len() > 0,
        !occurs_in(pat, s),
    ensures
        spec_replace_all(s, pat, rep) == s,
    decreases s.len(),
{
    if s.len() >= pat.len() {
        assert(s.subrange(0, pat.len() as int) != pat) by {
            if s.subrange(0, pat.len() as int) == pat {
                assert(s.subrange(0int, 0int + pat.len()) == pat);
                assert(occurs_in(pat, s));
            }
        }
        let t = s.subrange(1, s.len() as int);
        assert(!occurs_in(pat, t)) by {
            if occurs_in(pat, t) {
                let i = choose|i: int| 0 <= i && i + pat.len() <= t.len() && #[trigger] t.subrange(i, i + pat.len()) == pat;
                assert(s.subrange(i + 1, i + 1 + pat.len()) =~= t.subrange(i, i + pat.len()));
            }
        }
        lemma_replace_absent(t, pat, rep);
        assert(seq![s[0]] + t =~= s);
    }
}

/// A file stored by an upload is the file its url names, when the upload
/// url is not empty and occurs nowhere after its start in the url.
pub proof fn law_upload_url_names_file(
    upload_dir: Seq<char>,
    upload_url: Seq<char>,
    month: Seq<char>,
    file_name: Seq<char>,
)
    requires
        upload_url.len() > 0,
        !occurs_in(upload_url, "/"@ + month + "/"@ + file_name),
    ensures
        spec_replace_all(upload_url + "/"@ + month + "/"@ + file_name, upload_url, upload_dir)
            == upload_dir + "/"@ + month + "/"@ + file_name,
{
    let rest = "/"@ + month + "/"@ + file_name;
    let s = upload_url + rest;
    assert(upload_url + "/"@ + month + "/"@ + file_name =~= s);
    assert(s.subrange(0, upload_url.len() as int) =~= upload_url);
    assert(s.subrange(upload_url.len() as int, s.len() as int) =~= rest);
    lemma_replace_absent(rest, upload_url, upload_dir);
    assert(upload_dir + rest =~= upload_dir + "/"@ + month + "/"@ + file_name);
}

} // verus!

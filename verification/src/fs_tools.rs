//! Rules of the workspace-sandboxed `read_file` and `list_dir` tools: the
//! requested path, the checks on what it names, and the order of a listing.
use vstd::prelude::*;

use crate::text::{chars_le, decimal_spec, decimal_text, lemma_chars_le_total, lemma_chars_le_trans, nonblank, nonblank_str, opt_or, opt_str, str_le};
use crate::tools::ToolError;
use crate::wire::{DirEntry, ToolSpec};

verus! {

/// Max bytes that `read_file` returns (256 KiB).
pub const MAX_READ_FILE_BYTES: u64 = 256 * 1024;

/// The JSON schema of `read_file`'s arguments.
pub open spec fn read_file_params() -> Seq<char> {
    "{\n  \"type\": \"object\",\n  \"properties\": {\n    \"path\": {\n      \"type\": \"string\",\n      \"description\": \"Path relative to the workspace root\"\n    }\n  },\n  \"required\": [\"path\"],\n  \"additionalProperties\": false\n}"@
}

/// The JSON schema of `list_dir`'s arguments.
pub open spec fn list_dir_params() -> Seq<char> {
    "{\n  \"type\": \"object\",\n  \"properties\": {\n    \"path\": {\n      \"type\": \"string\",\n      \"description\": \"Directory path relative to the workspace root (\\\".\\\" = workspace root)\"\n    }\n  },\n  \"required\": [\"path\"],\n  \"additionalProperties\": false\n}"@
}

/// The spec of `read_file`: its name, description and argument schema.
pub fn read_file_tool_spec() -> (r: ToolSpec)
    ensures
        r.name matches Some(n) && n@ == "read_file"@,
        r.description matches Some(d) && d@
            == "Read a UTF-8 text file under the workspace. Path must be relative; max 256KiB."@,
        r.parameters_json matches Some(p) && p@ == read_file_params(),
{
    ToolSpec {
        name: Some(String::from_str("read_file")),
        description: Some(
            String::from_str("Read a UTF-8 text file under the workspace. Path must be relative; max 256KiB."),
        ),
        parameters_json: Some(
            String::from_str(
                "{\n  \"type\": \"object\",\n  \"properties\": {\n    \"path\": {\n      \"type\": \"string\",\n      \"description\": \"Path relative to the workspace root\"\n    }\n  },\n  \"required\": [\"path\"],\n  \"additionalProperties\": false\n}",
            ),
        ),
    }
}

/// The spec of `list_dir`: its name, description and argument schema.
pub fn list_dir_tool_spec() -> (r: ToolSpec)
    ensures
        r.name matches Some(n) && n@ == "list_dir"@,
        r.description matches Some(d) && d@
            == "List entries in a workspace directory (non-recursive). Path must be relative."@,
        r.parameters_json matches Some(p) && p@ == list_dir_params(),
{
    ToolSpec {
        name: Some(String::from_str("list_dir")),
        description: Some(
            String::from_str("List entries in a workspace directory (non-recursive). Path must be relative."),
        ),
        parameters_json: Some(
            String::from_str(
                "{\n  \"type\": \"object\",\n  \"properties\": {\n    \"path\": {\n      \"type\": \"string\",\n      \"description\": \"Directory path relative to the workspace root (\\\".\\\" = workspace root)\"\n    }\n  },\n  \"required\": [\"path\"],\n  \"additionalProperties\": false\n}",
            ),
        ),
    }
}

/// The trimmed `path` argument of a tool call; `path is required` when blank.
pub fn requested_path(tool: &str, path: &Option<String>) -> (r: Result<String, ToolError>)
    ensures
        nonblank(*path) matches Some(p) ==> (r matches Ok(s) && s@ == p),
        nonblank(*path) is None ==> (r matches Err(ToolError::Failed { name, message }) && name@ == tool@
            && message@ == "path is required"@),
{
    match nonblank_str(path) {
        Some(p) => Ok(String::from_str(p)),
        None => Err(ToolError::failed(tool, String::from_str("path is required"))),
    }
}

pub open spec fn not_a_file_text(req_path: Seq<char>) -> Seq<char> {
    req_path + " is not a file"@
}

pub open spec fn too_large_text(len: u64) -> Seq<char> {
    "file exceeds max size ("@ + decimal_spec(MAX_READ_FILE_BYTES as int) + " bytes): "@ + decimal_spec(len as int)
        + " bytes"@
}

/// What `read_file` requires of the entry it found: a regular file of at most
/// [`MAX_READ_FILE_BYTES`] bytes.
pub fn check_read_file(req_path: &str, is_file: bool, len: u64) -> (r: Result<(), ToolError>)
    ensures
        !is_file ==> (r matches Err(ToolError::Failed { name, message }) && name@ == "read_file"@
            && message@ == not_a_file_text(req_path@)),
        is_file && len > MAX_READ_FILE_BYTES ==> (r matches Err(ToolError::Failed { name, message }) && name@
            == "read_file"@ && message@ == too_large_text(len)),
        is_file && len <= MAX_READ_FILE_BYTES ==> r is Ok,
{
    if !is_file {
        let mut m = String::from_str(req_path);
        m.append(" is not a file");
        return Err(ToolError::failed("read_file", m));
    }
    if len > MAX_READ_FILE_BYTES {
        let mut m = String::from_str("file exceeds max size (");
        m.append(decimal_text(MAX_READ_FILE_BYTES as i128).as_str());
        m.append(" bytes): ");
        m.append(decimal_text(len as i128).as_str());
        m.append(" bytes");
        return Err(ToolError::failed("read_file", m));
    }
    Ok(())
}

/// What `list_dir` requires of the entry it found: a directory.
pub fn check_list_dir(req_path: &str, is_dir: bool) -> (r: Result<(), ToolError>)
    ensures
        is_dir ==> r is Ok,
        !is_dir ==> (r matches Err(ToolError::Failed { name, message }) && name@ == "list_dir"@ && message@
            == req_path@ + " is not a directory"@),
{
    if is_dir {
        Ok(())
    } else {
        let mut m = String::from_str(req_path);
        m.append(" is not a directory");
        Err(ToolError::failed("list_dir", m))
    }
}

/// The name by which a listing is ordered.
pub open spec fn entry_key(e: DirEntry) -> Seq<char> {
    opt_or(e.name, ""@)
}

pub open spec fn entries_sorted(s: Seq<DirEntry>) -> bool {
    forall|i: int, j: int| 0 <= i < j < s.len() ==> chars_le(entry_key(s[i]), entry_key(s[j]))
}

pub open spec fn key_is(k: Seq<char>) -> spec_fn(DirEntry) -> bool {
    |e: DirEntry| entry_key(e) == k
}

/// The entries of `s` named `k`, in their order.
pub open spec fn with_key(s: Seq<DirEntry>, k: Seq<char>) -> Seq<DirEntry> {
    s.filter(key_is(k))
}

proof fn lemma_with_key_absent(s: Seq<DirEntry>, k: Seq<char>)
    requires
        forall|j: int| 0 <= j < s.len() ==> entry_key(#[trigger] s[j]) != k,
    ensures
        with_key(s, k) == Seq::<DirEntry>::empty(),
    decreases s.len(),
{
    if s.len() > 0 {
        let t = s.drop_first();
        assert forall|j: int| 0 <= j < t.len() implies entry_key(#[trigger] t[j]) != k by {
            assert(t[j] == s[j + 1]);
        }
        lemma_with_key_absent(t, k);
        assert(s =~= seq![s[0]] + t);
        t.lemma_filter_prepend(s[0], key_is(k));
        assert(!key_is(k)(s[0]));
        assert(with_key(s, k) =~= Seq::<DirEntry>::empty());
    }
}

/// Inserting `x` at `pos`, where every entry before `pos` has another name,
/// puts `x` first among the entries named like it and moves no other entry
/// of any name.
proof fn lemma_with_key_insert(s: Seq<DirEntry>, pos: int, x: DirEntry, k: Seq<char>)
    requires
        0 <= pos <= s.len(),
        forall|j: int| 0 <= j < pos ==> entry_key(#[trigger] s[j]) != entry_key(x),
    ensures
        with_key(s.insert(pos, x), k) == (if entry_key(x) == k {
            seq![x]
        } else {
            Seq::empty()
        }) + with_key(s, k),
{
    let a = s.take(pos);
    let b = s.skip(pos);
    assert(s =~= a + b);
    assert(s.insert(pos, x) =~= a + (seq![x] + b));
    Seq::filter_distributes_over_add(a, b, key_is(k));
    Seq::filter_distributes_over_add(a, seq![x] + b, key_is(k));
    b.lemma_filter_prepend(x, key_is(k));
    if entry_key(x) == k {
        assert forall|j: int| 0 <= j < a.len() implies entry_key(#[trigger] a[j]) != k by {
            assert(a[j] == s[j]);
        }
        lemma_with_key_absent(a, k);
        assert(with_key(s.insert(pos, x), k) =~= seq![x] + with_key(s, k));
    } else {
        assert(with_key(s.insert(pos, x), k) =~= with_key(s, k));
    }
}

/// The entries of a listing ordered by name; entries of equal name keep
/// their order.
pub fn sort_dir_entries(entries: Vec<DirEntry>) -> (r: Vec<DirEntry>)
    ensures
        r@.to_multiset() == entries@.to_multiset(),
        entries_sorted(r@),
        forall|k: Seq<char>| #[trigger] with_key(r@, k) == with_key(entries@, k),
{
    broadcast use vstd::seq_lib::group_to_multiset_ensures, vstd::multiset::group_multiset_axioms;

    let mut out: Vec<DirEntry> = Vec::new();
    let mut rest = entries;
    let ghost all = rest@;
    assert(out@.to_multiset() =~= vstd::multiset::Multiset::empty());
    while rest.len() > 0
        invariant
            out@.to_multiset().add(rest@.to_multiset()) == all.to_multiset(),
            entries_sorted(out@),
            rest@ == all.take(rest@.len() as int),
            rest@.len() <= all.len(),
            forall|k: Seq<char>| #[trigger] with_key(out@, k) == with_key(all.skip(rest@.len() as int), k),
        decreases rest@.len(),
    {
        let ghost before_rest = rest@;
        let x = rest.pop().unwrap();
        assert(before_rest =~= rest@.push(x));
        let key = opt_str(&x.name, "");
        let len = out.len();
        let mut pos: usize = 0;
        while pos < len && !str_le(key, opt_str(&out[pos].name, ""))
            invariant
                len == out@.len(),
                pos <= len,
                entries_sorted(out@),
                key@ == entry_key(x),
                forall|j: int| 0 <= j < pos ==> chars_le(entry_key(out@[j]), key@),
                forall|j: int| 0 <= j < pos ==> entry_key(#[trigger] out@[j]) != key@,
            decreases len - pos,
        {
            proof {
                lemma_chars_le_total(entry_key(out@[pos as int]), key@);
                lemma_chars_le_total(key@, key@);
            }
            pos += 1;
        }
        let ghost old_out = out@;
        proof {
            assert forall|j: int| pos <= j < len implies chars_le(key@, entry_key(#[trigger] old_out[j])) by {
                if j > pos {
                    lemma_chars_le_trans(key@, entry_key(old_out[pos as int]), entry_key(old_out[j]));
                }
            }
        }
        out.insert(pos, x);
        proof {
            assert(out@ == old_out.insert(pos as int, x));
            assert forall|a: int, b: int| 0 <= a < b < out@.len() implies chars_le(
                entry_key(out@[a]),
                entry_key(out@[b]),
            ) by {
                if b < pos {
                } else if b == pos {
                } else if a < pos {
                    lemma_chars_le_trans(entry_key(old_out[a]), key@, entry_key(old_out[b - 1]));
                } else if a == pos {
                } else {
                }
            }
            vstd::seq_lib::to_multiset_insert(old_out, pos as int, x);
            vstd::seq_lib::to_multiset_build(rest@, x);
            assert(out@.to_multiset() == old_out.to_multiset().insert(x));
            assert(rest@.push(x).to_multiset() == rest@.to_multiset().insert(x));
            assert(out@.to_multiset().add(rest@.to_multiset()) =~= all.to_multiset());
            let n = rest@.len() as int;
            assert(rest@ =~= all.take(n)) by {
                assert(before_rest == all.take(n + 1));
            }
            assert(all[n] == x) by {
                assert(before_rest[n] == x);
            }
            assert(all.skip(n) =~= seq![x] + all.skip(n + 1));
            assert forall|k: Seq<char>| #[trigger] with_key(out@, k) == with_key(all.skip(n), k) by {
                lemma_with_key_insert(old_out, pos as int, x, k);
                all.skip(n + 1).lemma_filter_prepend(x, key_is(k));
            }
        }
    }
    assert(all.skip(0) =~= all);
    out
}

} // verus!

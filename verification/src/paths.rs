//! Path-derived names and fixed repository locations. Paths are handled as
//! slash-separated text: a path's filename is its last significant segment
//! (empty and `.` segments are skipped; a final `..` has no filename), and
//! its parent name is the significant segment before that.

use vstd::prelude::*;

use crate::cleaner::{spec_lines, split_lines};
use crate::profiles::{prompt_profile_spec, spec_template_stem, PromptProfile};
use crate::text::{
    has_seq_at, str_eq, str_has_prefix_at, trim_matches_str, trim_str, trimmed, trimmed_matches,
};

verus! {

/// The least index of a slash in `s`, or `s.len()` when there is none.
pub open spec fn first_slash(s: Seq<char>) -> int
    decreases s.len(),
{
    if s.len() == 0 {
        0
    } else if s[0] == '/' {
        0
    } else {
        1 + first_slash(s.drop_first())
    }
}

/// `first_slash` is pinned by its characteristic facts.
pub proof fn lemma_first_slash_at(s: Seq<char>, k: int)
    requires
        0 <= k <= s.len(),
        forall|j: int| 0 <= j < k ==> s[j] != '/',
        k < s.len() ==> s[k] == '/',
    ensures
        first_slash(s) == k,
    decreases s.len(),
{
    if s.len() > 0 {
        if k == 0 {
            if s[0] != '/' {
                assert(false);
            }
        } else {
            assert(s[0] != '/');
            assert forall|j: int| 0 <= j < k - 1 implies s.drop_first()[j] != '/' by {
                assert(s.drop_first()[j] == s[j + 1]);
            }
            if k - 1 < s.drop_first().len() {
                assert(s.drop_first()[k - 1] == s[k]);
            }
            lemma_first_slash_at(s.drop_first(), k - 1);
        }
    }
}

/// The slash-separated segments of a path: `n` slashes give `n + 1`
/// segments, some possibly empty.
pub open spec fn spec_segments(s: Seq<char>) -> Seq<Seq<char>>
    decreases s.len(),
{
    let i = first_slash(s);
    if 0 <= i < s.len() {
        seq![s.take(i)] + spec_segments(s.skip(i + 1))
    } else {
        seq![s]
    }
}

/// The segments that name something: empty segments and `.` are skipped.
pub open spec fn spec_significant(segs: Seq<Seq<char>>) -> Seq<Seq<char>>
    decreases segs.len(),
{
    if segs.len() == 0 {
        Seq::empty()
    } else if segs[0].len() == 0 || segs[0] == "."@ {
        spec_significant(segs.drop_first())
    } else {
        seq![segs[0]] + spec_significant(segs.drop_first())
    }
}

/// The filename of a path: its last significant segment, unless there is
/// none or it is `..`.
pub open spec fn spec_file_name(p: Seq<char>) -> Option<Seq<char>> {
    let f = spec_significant(spec_segments(p));
    if f.len() == 0 {
        None
    } else if f.last() == ".."@ {
        None
    } else {
        Some(f.last())
    }
}

/// The name of a path's parent directory: the significant segment before
/// the filename, unless there is none or it is `..`.
pub open spec fn spec_parent_name(p: Seq<char>) -> Option<Seq<char>> {
    let f = spec_significant(spec_segments(p));
    if f.len() < 2 {
        None
    } else if f[f.len() - 2] == ".."@ {
        None
    } else {
        Some(f[f.len() - 2])
    }
}

/// The index of the last dot that does not open the filename, or `-1`:
/// the part before it is the file stem.
pub open spec fn last_dot_after_first(s: Seq<char>) -> int
    decreases s.len(),
{
    if s.len() <= 1 {
        -1
    } else if s.last() == '.' {
        s.len() - 1
    } else {
        last_dot_after_first(s.drop_last())
    }
}

/// `last_dot_after_first` is pinned by its characteristic facts.
pub proof fn lemma_last_dot_at(s: Seq<char>, k: int)
    requires
        1 <= k < s.len(),
        s[k] == '.',
        forall|j: int| k < j < s.len() ==> s[j] != '.',
    ensures
        last_dot_after_first(s) == k,
    decreases s.len(),
{
    if k < s.len() - 1 {
        assert(s.last() != '.');
        assert(s.drop_last()[k] == s[k]);
        assert forall|j: int| k < j < s.drop_last().len() implies s.drop_last()[j] != '.' by {
            assert(s.drop_last()[j] == s[j]);
        }
        lemma_last_dot_at(s.drop_last(), k);
    }
}

/// When no dot stands past the first character, there is no stem split.
pub proof fn lemma_no_dot(s: Seq<char>)
    requires
        forall|j: int| 1 <= j < s.len() ==> s[j] != '.',
    ensures
        last_dot_after_first(s) == -1,
    decreases s.len(),
{
    if s.len() > 1 {
        assert(s.last() != '.');
        assert forall|j: int| 1 <= j < s.drop_last().len() implies s.drop_last()[j] != '.' by {
            assert(s.drop_last()[j] == s[j]);
        }
        lemma_no_dot(s.drop_last());
    }
}

/// The filename without its extension: the part before the last dot,
/// except that a lone leading dot opens no extension.
pub open spec fn spec_file_stem(name: Seq<char>) -> Seq<char> {
    if last_dot_after_first(name) >= 1 {
        name.take(last_dot_after_first(name))
    } else {
        name
    }
}

/// The directory name with every trailing `.Notebook` suffix removed.
pub open spec fn spec_strip_notebook_suffix(s: Seq<char>) -> Seq<char>
    decreases s.len(),
{
    if s.len() >= 9 && s.subrange(s.len() - 9, s.len() as int) == ".Notebook"@ {
        spec_strip_notebook_suffix(s.take(s.len() - 9))
    } else {
        s
    }
}

/// The output names derived from an input path: in general the filename's
/// stem and the filename itself; for the generic notebook content file,
/// the parent directory's name (with any `.Notebook` suffix stripped) and
/// that name with the fixed extension; without a parent, the generic stem.
pub open spec fn spec_determine_output_names(p: Seq<char>) -> (Seq<char>, Seq<char>)
    recommends
        spec_file_name(p) is Some,
{
    let name = spec_file_name(p)->0;
    if name != "notebook-content.py"@ {
        (spec_file_stem(name), name)
    } else {
        match spec_parent_name(p) {
            Some(parent) => {
                let stem = spec_strip_notebook_suffix(parent);
                (stem, stem + ".py"@)
            },
            None => ("notebook-content"@, "notebook-content"@ + ".py"@),
        }
    }
}

/// Splits a path into its slash-separated segments.
fn split_segments<'a>(s: &'a str) -> (r: Vec<&'a str>)
    ensures
        r.deep_view() == spec_segments(s@),
{
    let n = s.unicode_len();
    let mut out: Vec<&'a str> = Vec::new();
    let mut pos: usize = 0;
    proof {
        assert(s@.skip(0) =~= s@);
        assert(out.deep_view() =~= Seq::<Seq<char>>::empty());
        assert(Seq::<Seq<char>>::empty() + spec_segments(s@) =~= spec_segments(s@));
    }
    while pos < n
        invariant
            pos <= n,
            n == s@.len(),
            spec_segments(s@) =~= out.deep_view() + spec_segments(s@.skip(pos as int)),
        decreases n - pos,
    {
        let ghost suffix = s@.skip(pos as int);
        let mut j: usize = pos;
        while j < n && s.get_char(j) != '/'
            invariant
                pos <= j <= n,
                n == s@.len(),
                forall|k: int| pos <= k < j ==> s@[k] != '/',
            decreases n - j,
        {
            j += 1;
        }
        proof {
            assert forall|k: int| 0 <= k < j - pos implies suffix[k] != '/' by {
                assert(suffix[k] == s@[pos + k]);
            }
            if j < n {
                assert(suffix[j - pos] == s@[j as int]);
            }
            lemma_first_slash_at(suffix, j - pos);
        }
        let piece = s.substring_char(pos, j);
        let ghost old_out = out.deep_view();
        out.push(piece);
        if j < n {
            proof {
                assert(piece@ =~= suffix.take(j - pos as int));
                assert(suffix.skip(j - pos as int + 1) =~= s@.skip(j as int + 1));
                assert(spec_segments(suffix) == seq![piece@] + spec_segments(s@.skip(j as int + 1)));
                assert(out.deep_view() =~= old_out.push(piece@));
                assert(old_out.push(piece@) + spec_segments(s@.skip(j as int + 1)) =~= old_out + (
                seq![piece@] + spec_segments(s@.skip(j as int + 1))));
            }
            pos = j + 1;
        } else {
            proof {
                assert(piece@ =~= suffix);
                assert(spec_segments(suffix) == seq![suffix]);
                assert(out.deep_view() =~= old_out.push(suffix));
                assert(old_out.push(suffix) =~= old_out + seq![suffix]);
                assert(spec_segments(s@) =~= out.deep_view());
            }
            return out;
        }
    }
    // Reached only when the path is empty or ends with a slash: one final
    // empty segment remains.
    let piece = s.substring_char(n, n);
    let ghost old_out = out.deep_view();
    out.push(piece);
    proof {
        let suffix = s@.skip(n as int);
        assert(suffix =~= Seq::<char>::empty());
        assert(piece@ =~= suffix);
        assert(spec_segments(suffix) == seq![suffix]);
        assert(out.deep_view() =~= old_out.push(suffix));
        assert(old_out.push(suffix) =~= old_out + seq![suffix]);
        assert(spec_segments(s@) =~= out.deep_view());
    }
    out
}

/// Keeps the significant segments: drops empty ones and `.`.
fn significant_segments<'a>(segs: &Vec<&'a str>) -> (r: Vec<&'a str>)
    ensures
        r.deep_view() == spec_significant(segs.deep_view()),
{
    let ghost all = segs.deep_view();
    let mut kept: Vec<&'a str> = Vec::new();
    let mut i: usize = 0;
    proof {
        assert(all.skip(0) =~= all);
        assert(kept.deep_view() =~= Seq::<Seq<char>>::empty());
        assert(Seq::<Seq<char>>::empty() + spec_significant(all) =~= spec_significant(all));
    }
    while i < segs.len()
        invariant
            i <= segs@.len(),
            all == segs.deep_view(),
            all.len() == segs@.len(),
            spec_significant(all) =~= kept.deep_view() + spec_significant(all.skip(i as int)),
        decreases segs@.len() - i,
    {
        proof {
            assert(all.skip(i as int)[0] == all[i as int]);
            assert(all.skip(i as int).drop_first() =~= all.skip(i as int + 1));
        }
        let seg = segs[i];
        let ghost old_kept = kept.deep_view();
        if !(seg.unicode_len() == 0 || str_eq(seg, ".")) {
            kept.push(seg);
            proof {
                assert(kept.deep_view() =~= old_kept.push(all[i as int]));
                assert(old_kept.push(all[i as int]) + spec_significant(all.skip(i as int + 1))
                    =~= old_kept + (seq![all[i as int]] + spec_significant(
                    all.skip(i as int + 1),
                )));
            }
        }
        i += 1;
    }
    proof {
        assert(all.skip(all.len() as int) =~= Seq::<Seq<char>>::empty());
        assert(kept.deep_view() + Seq::<Seq<char>>::empty() =~= kept.deep_view());
    }
    kept
}

/// The filename's stem: the part before the last dot, except that a lone
/// leading dot opens no extension.
fn file_stem_of<'a>(name: &'a str) -> (r: &'a str)
    ensures
        r@ == spec_file_stem(name@),
{
    let n = name.unicode_len();
    let mut j: usize = n;
    while j > 1 && name.get_char(j - 1) != '.'
        invariant
            (1 <= j <= n) || (j == n),
            n == name@.len(),
            forall|k: int| j <= k < n ==> name@[k] != '.',
        decreases j,
    {
        j -= 1;
    }
    if j > 1 && name.get_char(j - 1) == '.' {
        proof {
            lemma_last_dot_at(name@, j - 1);
        }
        let stem = name.substring_char(0, j - 1);
        proof {
            assert(stem@ =~= name@.take(j - 1));
        }
        stem
    } else {
        proof {
            if n > 0 && j == 1 {
                lemma_no_dot(name@);
            } else {
                assert(n == 0 || j == 0 || (j == n && n <= 1));
                lemma_no_dot(name@);
            }
        }
        name
    }
}

/// Removes every trailing `.Notebook` suffix from a directory name.
fn strip_notebook_suffix<'a>(s: &'a str) -> (r: &'a str)
    ensures
        r@ == spec_strip_notebook_suffix(s@),
{
    let mut cur: &'a str = s;
    let mut cur_len = cur.unicode_len();
    while cur_len >= 9 && str_has_prefix_at(cur, cur_len - 9, ".Notebook")
        invariant
            cur_len == cur@.len(),
            spec_strip_notebook_suffix(s@) == spec_strip_notebook_suffix(cur@),
        decreases cur_len,
    {
        proof {
            reveal_strlit(".Notebook");
            assert(".Notebook"@.len() == 9);
            assert(cur@.subrange(cur@.len() - 9, cur@.len() as int) == ".Notebook"@);
        }
        let next = cur.substring_char(0, cur_len - 9);
        proof {
            assert(next@ =~= cur@.take(cur@.len() - 9));
        }
        cur = next;
        cur_len = cur_len - 9;
    }
    proof {
        reveal_strlit(".Notebook");
        if cur@.len() >= 9 {
            assert(!has_seq_at(cur@, cur@.len() - 9, ".Notebook"@));
            assert(cur@.subrange(cur@.len() - 9, cur@.len() as int) != ".Notebook"@);
        }
        assert(spec_strip_notebook_suffix(cur@) == cur@);
    }
    cur
}

/// Derives the output stem and output filename from the input path: in
/// general the filename without and with its extension; for the generic
/// `notebook-content.py` the parent directory's name is used instead,
/// with any `.Notebook` suffix stripped and the fixed extension appended;
/// a parentless generic file falls back to the generic stem.
pub fn determine_output_names(input_path: &str) -> (r: (String, String))
    requires
        spec_file_name(input_path@) is Some,
    ensures
        r.0@ == spec_determine_output_names(input_path@).0,
        r.1@ == spec_determine_output_names(input_path@).1,
{
    let segs = split_segments(input_path);
    let sig = significant_segments(&segs);
    let ghost f = spec_significant(spec_segments(input_path@));
    proof {
        assert(sig.deep_view() == f);
        assert(f.len() > 0);
    }
    let name = sig[sig.len() - 1];
    proof {
        assert(name@ == f.last());
        assert(spec_file_name(input_path@)->0 == name@);
    }
    if !str_eq(name, "notebook-content.py") {
        let stem = file_stem_of(name);
        (String::from_str(stem), String::from_str(name))
    } else {
        if sig.len() >= 2 && !str_eq(sig[sig.len() - 2], "..") {
            let parent = sig[sig.len() - 2];
            proof {
                assert(parent@ == f[f.len() - 2]);
                assert(spec_parent_name(input_path@) == Some(parent@));
            }
            let stem = strip_notebook_suffix(parent);
            let stem_string = String::from_str(stem);
            let mut ext = String::from_str(stem);
            ext.append(".py");
            (stem_string, ext)
        } else {
            proof {
                if sig.len() >= 2 {
                    assert(f[f.len() - 2] == sig.deep_view()[sig@.len() - 2]);
                }
                assert(spec_parent_name(input_path@) is None);
            }
            let stem = String::from_str("notebook-content");
            let mut ext = String::from_str("notebook-content");
            ext.append(".py");
            (stem, ext)
        }
    }
}

/// Do the probed facts mark a directory as the repository root? True
/// exactly when the manifest file and both fixed directories are present.
pub fn has_repo_markers(
    has_manifest_file: bool,
    has_config_dir: bool,
    has_templates_dir: bool,
) -> (r: bool)
    ensures
        r == (has_manifest_file && has_config_dir && has_templates_dir),
{
    has_manifest_file && has_config_dir && has_templates_dir
}

/// What was observed about one ancestor directory: whether it carries the
/// repository markers itself, and what its mapping file pointed at.
pub struct AncestorProbe {
    pub path: String,
    pub has_markers: bool,
    pub mapped_root: Option<String>,
    pub mapped_root_has_markers: bool,
}

/// The repository root that a probe sequence yields: the first ancestor
/// carrying the markers, or the first mapped root that carries them.
pub open spec fn spec_find_repo_root(ps: Seq<AncestorProbe>) -> Option<Seq<char>>
    decreases ps.len(),
{
    if ps.len() == 0 {
        None
    } else if ps[0].has_markers {
        Some(ps[0].path@)
    } else if ps[0].mapped_root is Some && ps[0].mapped_root_has_markers {
        Some(ps[0].mapped_root->0@)
    } else {
        spec_find_repo_root(ps.drop_first())
    }
}

/// Walks the probed ancestors in order and returns the first repository
/// root found, as `spec_find_repo_root` selects it.
pub fn find_repo_root_in_ancestors(probes: &Vec<AncestorProbe>) -> (r: Option<String>)
    ensures
        (match r {
            Some(root) => spec_find_repo_root(probes@) == Some(root@),
            None => spec_find_repo_root(probes@) is None,
        }),
{
    let mut i: usize = 0;
    proof {
        assert(probes@.skip(0) =~= probes@);
    }
    while i < probes.len()
        invariant
            i <= probes@.len(),
            spec_find_repo_root(probes@) == spec_find_repo_root(probes@.skip(i as int)),
        decreases probes@.len() - i,
    {
        proof {
            assert(probes@.skip(i as int)[0] == probes@[i as int]);
            assert(probes@.skip(i as int).drop_first() =~= probes@.skip(i as int + 1));
        }
        let probe = &probes[i];
        if probe.has_markers {
            return Some(probe.path.clone());
        }
        match &probe.mapped_root {
            Some(mapped) => {
                if probe.mapped_root_has_markers {
                    return Some(mapped.clone());
                }
            },
            None => {},
        }
        i += 1;
    }
    proof {
        assert(probes@.skip(probes@.len() as int) =~= Seq::<AncestorProbe>::empty());
    }
    None
}

/// What one mapping-file line contributes: the value of the expected key,
/// trimmed and unquoted, on a line that is no comment and not empty.
pub open spec fn spec_env_value_of_line(l: Seq<char>) -> Option<Seq<char>> {
    let t = trimmed(l);
    if t.len() == 0 {
        None
    } else if t[0] == '#' {
        None
    } else if has_seq_at(t, 0, "ABSOLUTE_DOXCER_PATH="@) {
        let v = trimmed_matches(
            trimmed_matches(trimmed(t.skip("ABSOLUTE_DOXCER_PATH="@.len() as int)), '"'),
            '\'',
        );
        if v.len() == 0 {
            None
        } else {
            Some(v)
        }
    } else {
        None
    }
}

/// The first line that contributes a value decides.
pub open spec fn spec_first_env_value(ls: Seq<Seq<char>>) -> Option<Seq<char>>
    decreases ls.len(),
{
    if ls.len() == 0 {
        None
    } else {
        match spec_env_value_of_line(ls[0]) {
            Some(v) => Some(v),
            None => spec_first_env_value(ls.drop_first()),
        }
    }
}

/// What parsing the mapping file's text yields.
pub open spec fn spec_parse_system_env(content: Seq<char>) -> Option<Seq<char>> {
    spec_first_env_value(spec_lines(content))
}

/// Extracts the mapped repository root from the mapping file's text: the
/// first non-comment line assigning the expected key a nonempty value,
/// with surrounding whitespace and quotes removed.
pub fn parse_system_env_absolute_path(content: &str) -> (r: Option<String>)
    ensures
        (match r {
            Some(v) => spec_parse_system_env(content@) == Some(v@),
            None => spec_parse_system_env(content@) is None,
        }),
{
    let ls = split_lines(content);
    let ghost all = ls.deep_view();
    let mut i: usize = 0;
    proof {
        assert(all.skip(0) =~= all);
    }
    while i < ls.len()
        invariant
            i <= ls@.len(),
            all == ls.deep_view(),
            all == spec_lines(content@),
            all.len() == ls@.len(),
            spec_first_env_value(all) == spec_first_env_value(all.skip(i as int)),
        decreases ls@.len() - i,
    {
        proof {
            assert(all.skip(i as int)[0] == all[i as int]);
            assert(all.skip(i as int).drop_first() =~= all.skip(i as int + 1));
        }
        let line = ls[i];
        let t = trim_str(line);
        let t_len = t.as_str().unicode_len();
        if t_len == 0 {
            // An empty line contributes nothing.
        } else if t.as_str().get_char(0) == '#' {
            // A comment line contributes nothing.
        } else if str_has_prefix_at(t.as_str(), 0, "ABSOLUTE_DOXCER_PATH=") {
            let key_len = "ABSOLUTE_DOXCER_PATH=".unicode_len();
            let rest = t.as_str().substring_char(key_len, t_len);
            proof {
                assert(rest@ =~= t@.skip("ABSOLUTE_DOXCER_PATH="@.len() as int));
            }
            let v1 = trim_str(rest);
            let v2 = trim_matches_str(v1.as_str(), '"');
            let v3 = trim_matches_str(v2.as_str(), '\'');
            if v3.as_str().unicode_len() > 0 {
                proof {
                    assert(spec_env_value_of_line(all[i as int]) == Some(v3@));
                    assert(spec_first_env_value(all.skip(i as int)) == Some(v3@));
                    assert(spec_parse_system_env(content@) == Some(v3@));
                }
                return Some(v3);
            }
        }
        proof {
            assert(spec_env_value_of_line(all[i as int]) is None);
        }
        i += 1;
    }
    proof {
        assert(all.skip(all.len() as int) =~= Seq::<Seq<char>>::empty());
    }
    None
}

/// The layered environment files under the repository root, in load
/// order.
pub fn find_env_paths(repo_root: &str) -> (r: Vec<String>)
    ensures
        r@.len() == 4,
        r.deep_view()[0] == repo_root@ + "/config/system.env"@,
        r.deep_view()[1] == repo_root@ + "/config/definitions.env"@,
        r.deep_view()[2] == repo_root@ + "/config/azure_key_vault.env"@,
        r.deep_view()[3] == repo_root@ + "/config/ai_model.env"@,
{
    let mut p0 = String::from_str(repo_root);
    p0.append("/config/system.env");
    let mut p1 = String::from_str(repo_root);
    p1.append("/config/definitions.env");
    let mut p2 = String::from_str(repo_root);
    p2.append("/config/azure_key_vault.env");
    let mut p3 = String::from_str(repo_root);
    p3.append("/config/ai_model.env");
    let mut r: Vec<String> = Vec::new();
    r.push(p0);
    r.push(p1);
    r.push(p2);
    r.push(p3);
    r
}

/// The template path that a profile selects: the profile's own template
/// when it is present, the default template otherwise.
pub open spec fn spec_find_prompt_path(
    root: Seq<char>,
    profile: PromptProfile,
    profile_template_exists: bool,
) -> Seq<char> {
    if profile_template_exists {
        root + "/templates/"@ + spec_template_stem(profile) + "_prompt.md"@
    } else {
        root + "/templates/default_prompt.md"@
    }
}

/// Resolves the prompt template path for a profile. The caller reports
/// whether the profile's own template file is present; when it is not,
/// the default template's path is returned.
pub fn find_prompt_path(
    repo_root: &str,
    profile: PromptProfile,
    profile_template_exists: bool,
) -> (r: String)
    ensures
        r@ == spec_find_prompt_path(repo_root@, profile, profile_template_exists),
{
    if profile_template_exists {
        let entry = prompt_profile_spec(profile);
        let mut r = String::from_str(repo_root);
        r.append("/templates/");
        r.append(entry.template_stem.as_str());
        r.append("_prompt.md");
        proof {
            assert(r@ =~= repo_root@ + "/templates/"@ + spec_template_stem(profile)
                + "_prompt.md"@);
        }
        r
    } else {
        let mut r = String::from_str(repo_root);
        r.append("/templates/default_prompt.md");
        r
    }
}

/// The fixed context template path under the repository root.
pub fn find_context_path(repo_root: &str) -> (r: String)
    ensures
        r@ == repo_root@ + "/templates/context.md"@,
{
    let mut r = String::from_str(repo_root);
    r.append("/templates/context.md");
    r
}

/// The fixed output directory for generated documentation.
pub fn find_docs_path(repo_root: &str) -> (r: String)
    ensures
        r@ == repo_root@ + "/docs/newly-documented"@,
{
    let mut r = String::from_str(repo_root);
    r.append("/docs/newly-documented");
    r
}

/// The fixed query file for the primary definitions backend.
pub fn find_fabric_sql_path(repo_root: &str) -> (r: String)
    ensures
        r@ == repo_root@ + "/sql/fetch_fabric_definitions.sql"@,
{
    let mut r = String::from_str(repo_root);
    r.append("/sql/fetch_fabric_definitions.sql");
    r
}

/// The fixed query file for the secondary definitions backend.
pub fn find_azure_sql_path(repo_root: &str) -> (r: String)
    ensures
        r@ == repo_root@ + "/sql/fetch_azure_definitions.sql"@,
{
    let mut r = String::from_str(repo_root);
    r.append("/sql/fetch_azure_definitions.sql");
    r
}

} // verus!

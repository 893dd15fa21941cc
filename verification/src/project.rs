//! Project files: the `tsst.json` manifest, package names, `use` imports, and the
//! Cargo manifest of a built program.
use vstd::prelude::*;
use crate::compile_spec::{ident_chars, is_ident_char};
use crate::run_spec::{trim_text, trimmed};
use crate::text::{
    matches_at, occurs_at, chars_of, ends_with, has_char, has_prefix, has_suffix, owned,
    push_char, push_str, starts_with, string_from_range,
};

verus! {

/// A package that a project depends on, and where it comes from.
pub struct Dependency {
    pub name: String,
    pub source: String,
}

/// A name fit for a Cargo package: other characters become `_`, and a name that does
/// not start with a letter or `_` gets one in front; an empty name becomes `tsst_app`.
pub open spec fn package_name_text(name: Seq<char>) -> Seq<char> {
    let s = ident_chars(name);
    if s.len() == 0 {
        "tsst_app"@
    } else if !(('a' <= s[0] <= 'z') || ('A' <= s[0] <= 'Z') || s[0] == '_') {
        seq!['_'] + s
    } else {
        s
    }
}

/// A sanitized package name is a valid Cargo package name: not empty, starting with a
/// letter or `_`, and made only of ASCII letters, digits and `_`.
pub proof fn law_package_names_are_identifiers(name: Seq<char>)
    ensures
        package_name_text(name).len() > 0,
        ('a' <= package_name_text(name)[0] <= 'z') || ('A' <= package_name_text(name)[0] <= 'Z')
            || package_name_text(name)[0] == '_',
        forall|i: int|
            0 <= i < package_name_text(name).len() ==> is_ident_char(#[trigger] package_name_text(name)[i]),
{
    let s = ident_chars(name);
    if s.len() == 0 {
        reveal_strlit("tsst_app");
    } else {
        assert forall|i: int| 0 <= i < s.len() implies is_ident_char(#[trigger] s[i]) by {}
        if !(('a' <= s[0] <= 'z') || ('A' <= s[0] <= 'Z') || s[0] == '_') {
            let t = seq!['_'] + s;
            assert forall|i: int| 0 <= i < t.len() implies is_ident_char(#[trigger] t[i]) by {
                if i > 0 {
                    assert(t[i] == s[i - 1]);
                }
            }
        }
    }
}

pub fn sanitize_package_name(name: &str) -> (r: String)
    ensures
        r@ == package_name_text(name@),
{
    let chars = chars_of(name);
    let ghost mapped = ident_chars(name@);
    let mut result = String::new();
    let mut i: usize = 0;
    while i < chars.len()
        invariant
            i <= chars.len(),
            chars@ == name@,
            mapped == ident_chars(name@),
            result@ == mapped.take(i as int),
        decreases chars.len() - i,
    {
        let c = chars[i];
        let d = if ('a' <= c && c <= 'z') || ('A' <= c && c <= 'Z') || ('0' <= c && c <= '9') || c == '_' {
            c
        } else {
            '_'
        };
        push_char(&mut result, d);
        assert(mapped.take(i + 1) =~= mapped.take(i as int).push(mapped[i as int]));
        i += 1;
    }
    assert(mapped.take(chars.len() as int) =~= mapped);
    if chars.len() == 0 {
        return owned("tsst_app");
    }
    let first = mapped_first(chars[0]);
    assert(first == mapped[0]);
    if !(('a' <= first && first <= 'z') || ('A' <= first && first <= 'Z') || first == '_') {
        let mut prefixed = String::new();
        push_char(&mut prefixed, '_');
        push_str(&mut prefixed, result.as_str());
        assert(prefixed@ =~= seq!['_'] + mapped);
        prefixed
    } else {
        result
    }
}

fn mapped_first(c: char) -> (r: char)
    ensures
        r == (if is_ident_char(c) { c } else { '_' }),
{
    if ('a' <= c && c <= 'z') || ('A' <= c && c <= 'Z') || ('0' <= c && c <= '9') || c == '_' {
        c
    } else {
        '_'
    }
}

/// The file name of a module: the path, with `.tsst` added unless it ends so already.
pub open spec fn with_tsst_extension(path: Seq<char>) -> Seq<char> {
    if has_suffix(path, ".tsst"@) {
        path
    } else {
        path + ".tsst"@
    }
}

pub fn ensure_tsst_extension(path: &str) -> (r: String)
    ensures
        r@ == with_tsst_extension(path@),
{
    let p = owned(path);
    if ends_with(&p, ".tsst") {
        p
    } else {
        let mut r = p;
        push_str(&mut r, ".tsst");
        r
    }
}

/// An import such as `pkg/module`: not relative, no `.tsst` ending, with a `/`.
pub open spec fn is_package_slash_import(path: Seq<char>) -> bool {
    !has_prefix(path, "./"@) && !has_prefix(path, "../"@) && !has_suffix(path, ".tsst"@) && has_char(
        path,
        '/',
    )
}

pub fn looks_like_package_slash_import(import_path: &str) -> (r: bool)
    ensures
        r == is_package_slash_import(import_path@),
{
    let p = owned(import_path);
    !starts_with(&p, "./") && !starts_with(&p, "../") && !ends_with(&p, ".tsst")
        && crate::text::contains_char(&p, '/')
}

/// The first position at or after `from` where `c` stands.
pub open spec fn char_from(s: Seq<char>, c: char, from: int) -> Option<int>
    decreases s.len() - from,
{
    if from < 0 || from >= s.len() {
        None
    } else if s[from] == c {
        Some(from)
    } else {
        char_from(s, c, from + 1)
    }
}

fn find_char_from(v: &Vec<char>, c: char, from: usize) -> (r: Option<usize>)
    ensures
        match r {
            Some(k) => char_from(v@, c, from as int) == Some(k as int),
            None => char_from(v@, c, from as int) is None,
        },
{
    let mut i = from;
    while i < v.len()
        invariant
            from <= i,
            char_from(v@, c, from as int) == char_from(v@, c, i as int),
        decreases v.len() - i,
    {
        if v[i] == c {
            return Some(i);
        }
        i += 1;
    }
    None
}

/// The path in a `use "path";` line, when the line is one.
pub open spec fn use_import_text(line: Seq<char>) -> Option<Seq<char>> {
    let t = trimmed(line);
    if !has_prefix(t, "use "@) {
        None
    } else {
        match char_from(t, '"', 0) {
            None => None,
            Some(q1) => match char_from(t, '"', q1 + 1) {
                None => None,
                Some(q2) => Some(t.subrange(q1 + 1, q2)),
            },
        }
    }
}

pub fn parse_use_import(line: &str) -> (r: Option<String>)
    ensures
        match use_import_text(line@) {
            Some(p) => r is Some && r->0@ == p,
            None => r is None,
        },
{
    let t = trim_text(line);
    if !starts_with(&t, "use ") {
        return None;
    }
    let v = chars_of(t.as_str());
    let q1 = match find_char_from(&v, '"', 0) {
        None => {
            return None;
        },
        Some(q) => q,
    };
    proof {
        lemma_char_from_bounds(v@, '"', 0);
    }
    let q2 = match find_char_from(&v, '"', q1 + 1) {
        None => {
            return None;
        },
        Some(q) => q,
    };
    proof {
        lemma_char_from_bounds(v@, '"', q1 + 1);
    }
    Some(string_from_range(&v, q1 + 1, q2))
}

pub proof fn lemma_char_from_bounds(s: Seq<char>, c: char, from: int)
    ensures
        char_from(s, c, from) matches Some(k) ==> from <= k < s.len() && s[k] == c,
    decreases s.len() - from,
{
    if 0 <= from < s.len() && s[from] != c {
        lemma_char_from_bounds(s, c, from + 1);
    }
}

/// The end of a string literal whose text starts at `from`: the first quote that no
/// backslash escapes.
pub open spec fn string_end_from(s: Seq<char>, from: int, escaped: bool) -> Option<int>
    decreases s.len() - from,
{
    if from < 0 || from >= s.len() {
        None
    } else if escaped {
        string_end_from(s, from + 1, false)
    } else if s[from] == '\\' {
        string_end_from(s, from + 1, true)
    } else if s[from] == '"' {
        Some(from)
    } else {
        string_end_from(s, from + 1, false)
    }
}

pub fn find_string_end(v: &Vec<char>, start: usize) -> (r: Option<usize>)
    ensures
        match r {
            Some(k) => string_end_from(v@, start as int, false) == Some(k as int),
            None => string_end_from(v@, start as int, false) is None,
        },
{
    let mut escaped = false;
    let mut i = start;
    while i < v.len()
        invariant
            start <= i,
            string_end_from(v@, start as int, false) == string_end_from(v@, i as int, escaped),
        decreases v.len() - i,
    {
        let c = v[i];
        if escaped {
            escaped = false;
        } else if c == '\\' {
            escaped = true;
        } else if c == '"' {
            return Some(i);
        }
        i += 1;
    }
    None
}

/// The brace that closes the object opening at `from`, given how deep the scan is, whether it is
/// inside a string and whether the last character was a backslash there.
pub open spec fn brace_end_from(s: Seq<char>, from: int, depth: int, in_string: bool, escaped: bool) -> Option<int>
    decreases s.len() - from,
{
    if from < 0 || from >= s.len() {
        None
    } else if in_string {
        if escaped {
            brace_end_from(s, from + 1, depth, true, false)
        } else if s[from] == '\\' {
            brace_end_from(s, from + 1, depth, true, true)
        } else if s[from] == '"' {
            brace_end_from(s, from + 1, depth, false, false)
        } else {
            brace_end_from(s, from + 1, depth, true, false)
        }
    } else if s[from] == '"' {
        brace_end_from(s, from + 1, depth, true, false)
    } else if s[from] == '{' {
        brace_end_from(s, from + 1, depth + 1, false, false)
    } else if s[from] == '}' {
        if depth - 1 == 0 {
            Some(from)
        } else {
            brace_end_from(s, from + 1, depth - 1, false, false)
        }
    } else {
        brace_end_from(s, from + 1, depth, false, false)
    }
}

/// The position of the brace that closes the object opening at `start`.
pub open spec fn matching_brace(s: Seq<char>, start: int) -> Option<int> {
    if 0 <= start < s.len() && s[start] == '{' {
        brace_end_from(s, start, 0, false, false)
    } else {
        None
    }
}

pub fn find_matching_brace(v: &Vec<char>, start: usize) -> (r: Option<usize>)
    ensures
        match r {
            Some(k) => matching_brace(v@, start as int) == Some(k as int),
            None => matching_brace(v@, start as int) is None,
        },
{
    if start >= v.len() || v[start] != '{' {
        return None;
    }
    let mut depth: usize = 0;
    let mut in_string = false;
    let mut escaped = false;
    let mut i = start;
    while i < v.len()
        invariant
            start <= i,
            v@[start as int] == '{',
            i == start ==> depth == 0 && !in_string && !escaped,
            i > start ==> 1 <= depth <= i - start,
            !in_string ==> !escaped,
            matching_brace(v@, start as int) == brace_end_from(v@, i as int, depth as int, in_string, escaped),
        decreases v.len() - i,
    {
        let c = v[i];
        if in_string {
            if escaped {
                escaped = false;
            } else if c == '\\' {
                escaped = true;
            } else if c == '"' {
                in_string = false;
            }
        } else if c == '"' {
            in_string = true;
        } else if c == '{' {
            depth = depth + 1;
        } else if c == '}' {
            if depth - 1 == 0 {
                return Some(i);
            }
            depth = depth - 1;
        }
        i += 1;
    }
    None
}

pub proof fn lemma_string_end_bounds(s: Seq<char>, from: int, escaped: bool)
    ensures
        string_end_from(s, from, escaped) matches Some(k) ==> from <= k < s.len() && s[k] == '"',
    decreases s.len() - from,
{
    if 0 <= from < s.len() {
        if escaped {
            lemma_string_end_bounds(s, from + 1, false);
        } else if s[from] == '\\' {
            lemma_string_end_bounds(s, from + 1, true);
        } else if s[from] != '"' {
            lemma_string_end_bounds(s, from + 1, false);
        }
    }
}

/// The first position at or after `from` where `needle` occurs.
pub open spec fn text_from(s: Seq<char>, needle: Seq<char>, from: int) -> Option<int>
    decreases s.len() + 1 - from,
{
    if from < 0 || from + needle.len() > s.len() {
        None
    } else if occurs_at(s, needle, from) {
        Some(from)
    } else {
        text_from(s, needle, from + 1)
    }
}

/// The dependencies listed in an object's text from `index` on, after those in `acc`:
/// each a quoted name, a colon and a quoted source.
pub open spec fn deps_from(obj: Seq<char>, index: int, acc: Seq<(Seq<char>, Seq<char>)>) -> Result<Seq<(Seq<char>, Seq<char>)>, Seq<char>>
    decreases obj.len() - index,
{
    if index < 0 || index >= obj.len() {
        Ok(acc)
    } else {
        match char_from(obj, '"', index) {
            None => Ok(acc),
            Some(ns) => match string_end_from(obj, ns + 1, false) {
                None => Err("Invalid dependency name string in tsst.json."@),
                Some(ne) => {
                    let name = obj.subrange(ns + 1, ne);
                    match char_from(obj, ':', ne + 1) {
                        None => Err("Expected ':' after dependency '"@ + name + "'."@),
                        Some(colon) => match char_from(obj, '"', colon + 1) {
                            None => Err("Expected source string for dependency '"@ + name + "'."@),
                            Some(ss) => match string_end_from(obj, ss + 1, false) {
                                None => Err("Invalid source string for dependency '"@ + name + "'."@),
                                Some(se) => {
                                    proof {
                                        lemma_char_from_bounds(obj, '"', index);
                                        lemma_string_end_bounds(obj, ns + 1, false);
                                        lemma_char_from_bounds(obj, ':', ne + 1);
                                        lemma_char_from_bounds(obj, '"', colon + 1);
                                        lemma_string_end_bounds(obj, ss + 1, false);
                                    }
                                    deps_from(obj, se + 1, acc.push((name, obj.subrange(ss + 1, se))))
                                },
                            },
                        },
                    }
                },
            },
        }
    }
}

/// The dependencies of a `tsst.json` manifest: the entries of its `"dependencies"` object,
/// or none when it has no such key.
pub open spec fn dependencies_text(m: Seq<char>) -> Result<Seq<(Seq<char>, Seq<char>)>, Seq<char>> {
    match text_from(m, "\"dependencies\""@, 0) {
        None => Ok(Seq::empty()),
        Some(k) => match char_from(m, '{', k + "\"dependencies\""@.len()) {
            None => Err("Expected '{' after dependencies in tsst.json."@),
            Some(os) => match matching_brace(m, os) {
                None => Err("Could not find end of dependencies object in tsst.json."@),
                Some(oe) => deps_from(m.subrange(os + 1, oe), 0, Seq::empty()),
            },
        },
    }
}

pub open spec fn deps_view(v: Seq<Dependency>) -> Seq<(Seq<char>, Seq<char>)> {
    v.map_values(|d: Dependency| (d.name@, d.source@))
}

fn find_text_from(v: &Vec<char>, needle: &Vec<char>, from: usize) -> (r: Option<usize>)
    requires
        needle.len() > 0,
    ensures
        match r {
            Some(k) => text_from(v@, needle@, from as int) == Some(k as int),
            None => text_from(v@, needle@, from as int) is None,
        },
{
    let mut i = from;
    while i <= v.len() && needle.len() <= v.len() - i
        invariant
            needle.len() > 0,
            from <= i,
            text_from(v@, needle@, from as int) == text_from(v@, needle@, i as int),
        decreases v.len() + 1 - i,
    {
        if matches_at(v, needle, i) {
            return Some(i);
        }
        i += 1;
    }
    None
}

proof fn lemma_matching_brace_bounds(s: Seq<char>, from: int, depth: int, in_string: bool, escaped: bool)
    ensures
        brace_end_from(s, from, depth, in_string, escaped) matches Some(k) ==> from <= k < s.len(),
    decreases s.len() - from,
{
    if 0 <= from < s.len() {
        if in_string {
            if escaped {
                lemma_matching_brace_bounds(s, from + 1, depth, true, false);
            } else if s[from] == '\\' {
                lemma_matching_brace_bounds(s, from + 1, depth, true, true);
            } else if s[from] == '"' {
                lemma_matching_brace_bounds(s, from + 1, depth, false, false);
            } else {
                lemma_matching_brace_bounds(s, from + 1, depth, true, false);
            }
        } else if s[from] == '"' {
            lemma_matching_brace_bounds(s, from + 1, depth, true, false);
        } else if s[from] == '{' {
            lemma_matching_brace_bounds(s, from + 1, depth + 1, false, false);
        } else if s[from] == '}' {
            if depth - 1 != 0 {
                lemma_matching_brace_bounds(s, from + 1, depth - 1, false, false);
            }
        } else {
            lemma_matching_brace_bounds(s, from + 1, depth, false, false);
        }
    }
}

/// "`prefix``name``suffix`"
fn quoted_message(prefix: &str, name: &String, suffix: &str) -> (r: String)
    ensures
        r@ == prefix@ + name@ + suffix@,
{
    let mut m = owned(prefix);
    push_str(&mut m, name.as_str());
    push_str(&mut m, suffix);
    m
}

/// The dependencies listed in a `tsst.json` manifest.
pub fn parse_dependencies(manifest: &str) -> (r: Result<Vec<Dependency>, String>)
    ensures
        match dependencies_text(manifest@) {
            Ok(ds) => r is Ok && deps_view(r->Ok_0@) == ds,
            Err(m) => r is Err && r->Err_0@ == m,
        },
{
    let m = chars_of(manifest);
    let key = chars_of("\"dependencies\"");
    proof {
        reveal_strlit("\"dependencies\"");
    }
    assert(key.len() > 0);
    let k = match find_text_from(&m, &key, 0) {
        None => {
            let out: Vec<Dependency> = Vec::new();
            assert(deps_view(out@) =~= Seq::<(Seq<char>, Seq<char>)>::empty());
            return Ok(out);
        },
        Some(k) => k,
    };
    proof {
        lemma_text_from_bounds(m@, key@, 0);
    }
    let os = match find_char_from(&m, '{', k + key.len()) {
        None => {
            return Err(owned("Expected '{' after dependencies in tsst.json."));
        },
        Some(os) => os,
    };
    proof {
        lemma_char_from_bounds(m@, '{', k + key@.len());
    }
    let oe = match find_matching_brace(&m, os) {
        None => {
            return Err(owned("Could not find end of dependencies object in tsst.json."));
        },
        Some(oe) => oe,
    };
    proof {
        lemma_matching_brace_bounds(m@, os + 1, 1, false, false);
        assert(brace_end_from(m@, os as int, 0, false, false) == brace_end_from(m@, os + 1, 1, false, false));
    }
    let s = string_from_range(&m, os + 1, oe);
    let obj = chars_of(s.as_str());
    assert(obj@ == m@.subrange(os + 1, oe as int));
    let ghost target = deps_from(obj@, 0, Seq::empty());
    assert(dependencies_text(manifest@) == target);
    let mut out: Vec<Dependency> = Vec::new();
    let mut index: usize = 0;
    assert(deps_view(out@) =~= Seq::<(Seq<char>, Seq<char>)>::empty());
    loop
        invariant
            deps_from(obj@, index as int, deps_view(out@)) == target,
            target == deps_from(obj@, 0, Seq::empty()),
            dependencies_text(manifest@) == target,
            index <= obj.len() + 1,
        decreases obj.len() + 1 - index,
    {
        if index >= obj.len() {
            return Ok(out);
        }
        let ns = match find_char_from(&obj, '"', index) {
            None => {
                return Ok(out);
            },
            Some(q) => q,
        };
        proof {
            lemma_char_from_bounds(obj@, '"', index as int);
        }
        let ne = match find_string_end(&obj, ns + 1) {
            None => {
                return Err(owned("Invalid dependency name string in tsst.json."));
            },
            Some(q) => q,
        };
        proof {
            lemma_string_end_bounds(obj@, ns + 1, false);
        }
        let name = string_from_range(&obj, ns + 1, ne);
        let colon = match find_char_from(&obj, ':', ne + 1) {
            None => {
                return Err(quoted_message("Expected ':' after dependency '", &name, "'."));
            },
            Some(q) => q,
        };
        proof {
            lemma_char_from_bounds(obj@, ':', ne + 1);
        }
        let ss = match find_char_from(&obj, '"', colon + 1) {
            None => {
                return Err(quoted_message("Expected source string for dependency '", &name, "'."));
            },
            Some(q) => q,
        };
        proof {
            lemma_char_from_bounds(obj@, '"', colon + 1);
        }
        let se = match find_string_end(&obj, ss + 1) {
            None => {
                return Err(quoted_message("Invalid source string for dependency '", &name, "'."));
            },
            Some(q) => q,
        };
        proof {
            lemma_string_end_bounds(obj@, ss + 1, false);
        }
        let source = string_from_range(&obj, ss + 1, se);
        let ghost before = out@;
        out.push(Dependency { name, source });
        assert(deps_view(out@) =~= deps_view(before).push((obj@.subrange(ns + 1, ne as int), obj@.subrange(ss + 1, se as int))));
        index = se + 1;
    }
}

proof fn lemma_text_from_bounds(s: Seq<char>, needle: Seq<char>, from: int)
    ensures
        text_from(s, needle, from) matches Some(k) ==> from <= k && k + needle.len() <= s.len(),
    decreases s.len() + 1 - from,
{
    if !(from < 0 || from + needle.len() > s.len()) && !occurs_at(s, needle, from) {
        lemma_text_from_bounds(s, needle, from + 1);
    }
}

/// An import of the form `package:module` (a `:` that is not part of `://`).
pub open spec fn is_package_colon_import(path: Seq<char>) -> bool {
    has_char(path, ':') && !crate::text::contains_text(path, "://"@)
}

pub fn looks_like_package_colon_import(import_path: &str) -> (r: bool)
    ensures
        r == is_package_colon_import(import_path@),
{
    let p = owned(import_path);
    let sep = owned("://");
    crate::text::contains_char(&p, ':') && !crate::text::contains(&p, &sep)
}

/// `.` becomes `/`.
pub open spec fn dots_to_slashes(s: Seq<char>) -> Seq<char> {
    s.map_values(|c: char| if c == '.' { '/' } else { c })
}

/// The package and the module file of a `package:module` import: the text before the
/// first `:` and, with dots read as folders, the text after it.
pub open spec fn package_module_text(path: Seq<char>) -> Result<(Seq<char>, Seq<char>), Seq<char>> {
    match char_from(path, ':', 0) {
        None => Err("Invalid package import '"@ + path + "'."@),
        Some(c) => {
            let package = path.subrange(0, c);
            let module = path.subrange(c + 1, path.len() as int);
            if trimmed(package).len() == 0 || trimmed(module).len() == 0 {
                Err("Invalid package import '"@ + path + "'."@)
            } else {
                Ok((package, with_tsst_extension(dots_to_slashes(module))))
            }
        },
    }
}

pub fn package_module(import_path: &str) -> (r: Result<(String, String), String>)
    ensures
        match package_module_text(import_path@) {
            Ok((p, m)) => r is Ok && r->Ok_0.0@ == p && r->Ok_0.1@ == m,
            Err(e) => r is Err && r->Err_0@ == e,
        },
{
    let v = chars_of(import_path);
    let c = match find_char_from(&v, ':', 0) {
        None => {
            return Err(quoted_message("Invalid package import '", &owned(import_path), "'."));
        },
        Some(c) => c,
    };
    proof {
        lemma_char_from_bounds(v@, ':', 0);
    }
    let package = string_from_range(&v, 0, c);
    let module = string_from_range(&v, c + 1, v.len());
    let tp = trim_text(package.as_str());
    let tm = trim_text(module.as_str());
    if chars_of(tp.as_str()).len() == 0 || chars_of(tm.as_str()).len() == 0 {
        return Err(quoted_message("Invalid package import '", &owned(import_path), "'."));
    }
    let mv = chars_of(module.as_str());
    let mut path = String::new();
    let mut i: usize = 0;
    let ghost mapped = dots_to_slashes(module@);
    while i < mv.len()
        invariant
            i <= mv.len(),
            mv@ == module@,
            mapped == dots_to_slashes(module@),
            path@ == mapped.take(i as int),
        decreases mv.len() - i,
    {
        let ch = mv[i];
        push_char(&mut path, if ch == '.' { '/' } else { ch });
        assert(mapped.take(i + 1) =~= mapped.take(i as int).push(mapped[i as int]));
        i += 1;
    }
    assert(mapped.take(mv.len() as int) =~= mapped);
    Ok((package, ensure_tsst_extension(path.as_str())))
}

/// The Cargo manifest of a built program; a program with GUI support also needs
/// the window libraries.
pub open spec fn cargo_manifest_text(package_name: Seq<char>, needs_gui: bool) -> Seq<char> {
    "[package]\nname = \""@ + package_name + "\"\nversion = \"0.1.0\"\nedition = \"2021\"\n\n[dependencies]"@
        + (if needs_gui {
        "\neframe = \"0.29\"\negui = \"0.29\"\n"@
    } else {
        Seq::empty()
    }) + "\n"@
}

pub fn cargo_manifest(package_name: &str, needs_gui: bool) -> (r: String)
    ensures
        r@ == cargo_manifest_text(package_name@, needs_gui),
{
    let mut m = owned("[package]\nname = \"");
    push_str(&mut m, package_name);
    push_str(&mut m, "\"\nversion = \"0.1.0\"\nedition = \"2021\"\n\n[dependencies]");
    if needs_gui {
        push_str(&mut m, "\neframe = \"0.29\"\negui = \"0.29\"\n");
    }
    push_str(&mut m, "\n");
    assert(m@ =~= cargo_manifest_text(package_name@, needs_gui));
    m
}

/// Whether generated Rust source carries the GUI support.
pub fn needs_gui_libraries(rust_source: &String) -> (r: bool)
    ensures
        r == crate::text::contains_text(rust_source@, "enum GuiElement"@),
{
    crate::text::contains(rust_source, &owned("enum GuiElement"))
}

/// The `tsst.json` of a new project.
pub open spec fn project_manifest_text(name: Seq<char>) -> Seq<char> {
    "{\n  \"name\": \""@ + name + "\",\n  \"version\": \"0.1.0\",\n  \"dependencies\": {}\n}\n"@
}

pub fn project_manifest(name: &str) -> (r: String)
    ensures
        r@ == project_manifest_text(name@),
{
    let mut m = owned("{\n  \"name\": \"");
    push_str(&mut m, name);
    push_str(&mut m, "\",\n  \"version\": \"0.1.0\",\n  \"dependencies\": {}\n}\n");
    m
}

/// The `main.tsst` of a new project.
pub const STARTER_PROGRAM: &'static str = "pub fcn main () {\n    cons!(\"Hello from TSST!\");\n}\n";

/// Where a dependency is installed from.
pub enum PackageSource {
    /// A Git repository, cloned from this URL.
    Git(String),
    /// A folder, relative to the project root, that is copied.
    Local(String),
}

pub enum PackageSourceV {
    Git(Seq<char>),
    Local(Seq<char>),
}

impl View for PackageSource {
    type V = PackageSourceV;

    open spec fn view(&self) -> PackageSourceV {
        match self {
            PackageSource::Git(u) => PackageSourceV::Git(u@),
            PackageSource::Local(p) => PackageSourceV::Local(p@),
        }
    }
}

/// `s` with every leading repetition of the non-empty pattern `p` removed.
pub open spec fn without_leading(s: Seq<char>, p: Seq<char>) -> Seq<char>
    decreases s.len(),
{
    if p.len() > 0 && has_prefix(s, p) {
        without_leading(s.skip(p.len() as int), p)
    } else {
        s
    }
}

/// A source `github:owner/repo` clones `https://github.com/owner/repo.git`; `path:dir`
/// copies `dir`; an `https://` or `http://` URL is cloned as it is; anything else is refused.
pub open spec fn package_source_of(name: Seq<char>, source: Seq<char>) -> Result<PackageSourceV, Seq<char>> {
    if has_prefix(source, "github:"@) {
        Ok(PackageSourceV::Git("https://github.com/"@ + without_leading(source, "github:"@) + ".git"@))
    } else if has_prefix(source, "path:"@) {
        Ok(PackageSourceV::Local(without_leading(source, "path:"@)))
    } else if has_prefix(source, "https://"@) || has_prefix(source, "http://"@) {
        Ok(PackageSourceV::Git(source))
    } else {
        Err("Unsupported dependency source for '"@ + name + "': "@ + source)
    }
}

/// `s` with every leading repetition of `p` removed.
fn strip_leading(s: &String, p: &str) -> (r: String)
    requires
        p@.len() > 0,
    ensures
        r@ == without_leading(s@, p@),
{
    let v = chars_of(s.as_str());
    let pv = chars_of(p);
    let ghost target = without_leading(s@, p@);
    let mut i: usize = 0;
    assert(v@.skip(0) =~= v@);
    while pv.len() <= v.len() - i && matches_at(&v, &pv, i)
        invariant
            i <= v.len(),
            v@ == s@,
            pv@ == p@,
            pv@.len() > 0,
            without_leading(v@.skip(i as int), p@) == target,
        decreases v.len() - i,
    {
        let ghost rest = v@.skip(i as int);
        assert(rest.subrange(0, pv@.len() as int) =~= v@.subrange(i as int, i + pv@.len()));
        assert(rest.skip(pv@.len() as int) =~= v@.skip(i + pv@.len()));
        i = i + pv.len();
    }
    proof {
        let rest = v@.skip(i as int);
        if pv@.len() <= rest.len() {
            assert(rest.subrange(0, pv@.len() as int) =~= v@.subrange(i as int, i + pv@.len()));
        }
    }
    let r = string_from_range(&v, i, v.len());
    assert(v@.subrange(i as int, v@.len() as int) =~= v@.skip(i as int));
    r
}

/// Where to install a dependency from, or the error for a source of no known kind.
pub fn package_source(dependency: &Dependency) -> (r: Result<PackageSource, String>)
    ensures
        match package_source_of(dependency.name@, dependency.source@) {
            Ok(v) => r is Ok && r->Ok_0@ == v,
            Err(m) => r is Err && r->Err_0@ == m,
        },
{
    proof {
        reveal_strlit("github:");
        reveal_strlit("path:");
    }
    if starts_with(&dependency.source, "github:") {
        let repo = strip_leading(&dependency.source, "github:");
        let mut url = owned("https://github.com/");
        push_str(&mut url, repo.as_str());
        push_str(&mut url, ".git");
        Ok(PackageSource::Git(url))
    } else if starts_with(&dependency.source, "path:") {
        Ok(PackageSource::Local(strip_leading(&dependency.source, "path:")))
    } else if starts_with(&dependency.source, "https://") || starts_with(&dependency.source, "http://") {
        Ok(PackageSource::Git(dependency.source.clone()))
    } else {
        let mut m = owned("Unsupported dependency source for '");
        push_str(&mut m, dependency.name.as_str());
        push_str(&mut m, "': ");
        push_str(&mut m, dependency.source.as_str());
        Err(m)
    }
}

} // verus!

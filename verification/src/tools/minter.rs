//! The plugin minter's logic: naming rules, configuration checks, the
//! destination directory and template placeholder filling.

use vstd::prelude::*;
use crate::text::{chars_of, decimal, u64_to_decimal};
use crate::tools::harness::{bullets, has_char, problem_if, str_is, texts};

verus! {

/// The Unicode lower-case form of a string, as `str::to_lowercase` gives.
pub uninterp spec fn unicode_lowercase(s: Seq<char>) -> Seq<char>;

/// `str::to_lowercase`: the string's Unicode lower-case form.
#[verifier::external_body]
pub(crate) fn to_lowercase(s: &str) -> (r: String)
    ensures
        r@ == unicode_lowercase(s@),
{
    s.to_lowercase()
}

/// `s` with every `from` replaced by `to`.
pub open spec fn replace_char(s: Seq<char>, from: char, to: char) -> Seq<char> {
    Seq::new(s.len(), |i: int| if s[i] == from { to } else { s[i] })
}

/// `s` with every `from` replaced by `to`.
pub fn replace_char_exec(s: &str, from: char, to: char) -> (r: String)
    ensures
        r@ == replace_char(s@, from, to),
{
    let v = chars_of(s);
    let mut r = String::new();
    let mut i: usize = 0;
    while i < v.len()
        invariant
            i <= v@.len(),
            v@ == s@,
            r@ == replace_char(s@, from, to).take(i as int),
        decreases v@.len() - i,
    {
        let c = v[i];
        if c == from {
            r.push(to);
        } else {
            r.push(c);
        }
        i += 1;
        assert(r@ =~= replace_char(s@, from, to).take(i as int));
    }
    assert(replace_char(s@, from, to).take(v@.len() as int) =~= replace_char(s@, from, to));
    r
}

/// The predicate "is `c`".
pub open spec fn equals(c: char) -> spec_fn(char) -> bool {
    |x: char| x == c
}

/// `s` with leading and trailing `c` removed.
pub open spec fn trim_char(s: Seq<char>, c: char) -> Seq<char> {
    crate::text::strip_end(crate::text::strip_start(s, equals(c)), equals(c))
}

/// `s` with leading and trailing `c` removed.
fn trim_char_exec(s: &str, c: char) -> (r: String)
    ensures
        r@ == trim_char(s@, c),
{
    let v = chars_of(s);
    let (a, b) = trim_matching(&v, c);
    assert(v@.subrange(0, v@.len() as int) =~= s@);
    crate::text::string_from_chars(v.as_slice(), a, b)
}

proof fn lemma_strip_start_step(v: Seq<char>, i: int, to: int, p: spec_fn(char) -> bool)
    requires
        0 <= i < to <= v.len(),
        p(v[i]),
    ensures
        crate::text::strip_start(v.subrange(i, to), p) == crate::text::strip_start(
            v.subrange(i + 1, to),
            p,
        ),
{
    assert(v.subrange(i, to).drop_first() =~= v.subrange(i + 1, to));
}

proof fn lemma_strip_end_step(v: Seq<char>, from: int, j: int, p: spec_fn(char) -> bool)
    requires
        0 <= from < j <= v.len(),
        p(v[j - 1]),
    ensures
        crate::text::strip_end(v.subrange(from, j), p) == crate::text::strip_end(
            v.subrange(from, j - 1),
            p,
        ),
{
    assert(v.subrange(from, j).drop_last() =~= v.subrange(from, j - 1));
}

fn trim_matching(v: &Vec<char>, c: char) -> (r: (usize, usize))
    ensures
        r.0 <= r.1 <= v@.len(),
        v@.subrange(r.0 as int, r.1 as int) == trim_char(v@.subrange(0, v@.len() as int), c),
{
    let to = v.len();
    let mut i: usize = 0;
    while i < to && v[i] == c
        invariant
            i <= to == v@.len(),
            crate::text::strip_start(v@.subrange(0, to as int), equals(c))
                == crate::text::strip_start(v@.subrange(i as int, to as int), equals(c)),
        decreases to - i,
    {
        proof {
            lemma_strip_start_step(v@, i as int, to as int, equals(c));
        }
        i += 1;
    }
    let mut j = to;
    while j > i && v[j - 1] == c
        invariant
            i <= j <= to == v@.len(),
            crate::text::strip_end(v@.subrange(i as int, to as int), equals(c))
                == crate::text::strip_end(v@.subrange(i as int, j as int), equals(c)),
        decreases j - i,
    {
        proof {
            lemma_strip_end_step(v@, i as int, j as int, equals(c));
        }
        j -= 1;
    }
    proof {
        let t = v@.subrange(i as int, to as int);
        if t.len() > 0 {
            assert(t[0] == v@[i as int]);
        }
        assert(crate::text::strip_start(t, equals(c)) == t);
        let u = v@.subrange(i as int, j as int);
        assert(crate::text::strip_end(u, equals(c)) == u);
    }
    (i, j)
}

/// The crate name for a plugin id: dots become dashes, the result is
/// lower-cased, and leading and trailing dashes are dropped.
pub fn id_to_crate_name(id: &str) -> (r: String)
    ensures
        r@ == trim_char(unicode_lowercase(replace_char(id@, '.', '-')), '-'),
{
    let dashed = replace_char_exec(id, '.', '-');
    let lower = to_lowercase(dashed.as_str());
    trim_char_exec(lower.as_str(), '-')
}

/// A word separator of `to_camel_case`.
pub open spec fn is_separator(c: char) -> bool {
    c == '_' || c == '-' || c == '.' || c == ' '
}

pub open spec fn ascii_upper(c: char) -> char {
    if 'a' <= c && c <= 'z' {
        ((c as u32) - 32) as char
    } else {
        c
    }
}

pub open spec fn ascii_lower(c: char) -> char {
    if 'A' <= c && c <= 'Z' {
        ((c as u32) + 32) as char
    } else {
        c
    }
}

/// `char::to_ascii_uppercase`.
pub fn to_ascii_upper(c: char) -> (r: char)
    ensures
        r == ascii_upper(c),
{
    if 'a' <= c && c <= 'z' {
        let b = (c as u32 - 32) as u8;
        proof {
            vstd::utf8::char_u32_cast(c, c as u32);
        }
        b as char
    } else {
        c
    }
}

/// `char::to_ascii_lowercase`.
pub fn to_ascii_lower(c: char) -> (r: char)
    ensures
        r == ascii_lower(c),
{
    if 'A' <= c && c <= 'Z' {
        let b = (c as u32 + 32) as u8;
        proof {
            vstd::utf8::char_u32_cast(c, c as u32);
        }
        b as char
    } else {
        c
    }
}

/// CamelCase of `s`: separators (`_`, `-`, `.`, space) are dropped; the
/// first character of each word is upper-cased and the rest lower-cased
/// (ASCII only).
pub open spec fn camel_case(s: Seq<char>) -> Seq<char>
    decreases s.len(),
{
    if s.len() == 0 {
        Seq::empty()
    } else {
        let i = s.len() - 1;
        let c = s[i];
        let rest = camel_case(s.drop_last());
        if is_separator(c) {
            rest
        } else if i == 0 || is_separator(s[i - 1]) {
            rest.push(ascii_upper(c))
        } else {
            rest.push(ascii_lower(c))
        }
    }
}

/// Convert a plugin name to CamelCase.
pub fn to_camel_case(s: &str) -> (r: String)
    ensures
        r@ == camel_case(s@),
{
    let v = chars_of(s);
    let mut result = String::new();
    let mut capitalize_next = true;
    let mut i: usize = 0;
    while i < v.len()
        invariant
            i <= v@.len(),
            v@ == s@,
            result@ == camel_case(v@.take(i as int)),
            capitalize_next == (i == 0 || is_separator(v@[i - 1])),
        decreases v@.len() - i,
    {
        let c = v[i];
        proof {
            assert(v@.take(i + 1).drop_last() =~= v@.take(i as int));
            assert(v@.take(i + 1)[i as int] == c);
            if i > 0 {
                assert(v@.take(i + 1)[i - 1] == v@[i - 1]);
            }
        }
        if c == '_' || c == '-' || c == '.' || c == ' ' {
            capitalize_next = true;
        } else if capitalize_next {
            result.push(to_ascii_upper(c));
            capitalize_next = false;
        } else {
            result.push(to_ascii_lower(c));
        }
        i += 1;
    }
    assert(v@.take(v@.len() as int) =~= s@);
    result
}

//==============================================================================
// The minter configuration
//==============================================================================

/// The settings a `minter.toml` holds.
#[derive(Clone, Debug)]
pub struct MinterConfig {
    pub name: String,
    pub description: String,
    pub version: String,
    pub id: String,
    pub author: String,
    pub plugin_type: String,
    pub wasm_entry: String,
    pub license: String,
    pub author_email: Option<String>,
    pub homepage: Option<String>,
    pub icon: Option<String>,
    pub api_version: u32,
    pub capabilities: Vec<String>,
    pub tags: Vec<String>,
    pub long_description: Option<String>,
}

impl Default for MinterConfig {
    /// Version 0.1.0, an effect, entry `_start`, licence
    /// AGPL-3.0-or-later, API version 1, everything else empty.
    fn default() -> (c: MinterConfig)
        ensures
            c.name@.len() == 0,
            c.description@.len() == 0,
            c.version@ == "0.1.0"@,
            c.id@.len() == 0,
            c.author@.len() == 0,
            c.plugin_type@ == "effect"@,
            c.wasm_entry@ == "_start"@,
            c.license@ == "AGPL-3.0-or-later"@,
            c.author_email is None,
            c.homepage is None,
            c.icon is None,
            c.api_version == 1,
            c.capabilities@.len() == 0,
            c.tags@.len() == 0,
            c.long_description is None,
    {
        MinterConfig {
            name: String::new(),
            description: String::new(),
            version: "0.1.0".to_owned(),
            id: String::new(),
            author: String::new(),
            plugin_type: "effect".to_owned(),
            wasm_entry: "_start".to_owned(),
            license: "AGPL-3.0-or-later".to_owned(),
            author_email: None,
            homepage: None,
            icon: None,
            api_version: 1,
            capabilities: Vec::new(),
            tags: Vec::new(),
            long_description: None,
        }
    }
}

/// The problems `validate_config` finds, in check order.
pub open spec fn config_errors(c: MinterConfig) -> Seq<Seq<char>> {
    problem_if(c.name@.len() == 0, "missing 'name' field"@) + problem_if(
        c.description@.len() == 0,
        "missing 'description' field"@,
    ) + problem_if(c.version@.len() == 0, "missing 'version' field"@) + (if c.id@.len() == 0 {
        seq!["missing 'id' field"@]
    } else {
        problem_if(
            !c.id@.contains('.'),
            "'id' must be in reverse domain notation (e.g., com.example.plugin)"@,
        )
    }) + problem_if(c.author@.len() == 0, "missing 'author' field"@) + (if c.plugin_type@.len()
        == 0 {
        seq!["missing 'plugin_type' field"@]
    } else {
        problem_if(
            c.plugin_type@ != "effect"@ && c.plugin_type@ != "tool"@,
            "'plugin_type' must be 'effect' or 'tool'"@,
        )
    }) + problem_if(c.wasm_entry@.len() == 0, "missing 'wasm_entry' field"@) + problem_if(
        c.license@.len() == 0,
        "missing 'license' field"@,
    )
}

fn push_problem(errors: &mut Vec<&'static str>, cond: bool, msg: &'static str)
    ensures
        texts(final(errors)@) == texts(old(errors)@) + problem_if(cond, msg@),
{
    if cond {
        errors.push(msg);
    }
    assert(texts(errors@) =~= texts(old(errors)@) + problem_if(cond, msg@));
}

/// Check the required settings; the error lists every problem, one per
/// line.
#[verifier::rlimit(40)]
#[verifier::spinoff_prover]
pub fn validate_config(cfg: &MinterConfig) -> (r: Result<(), String>)
    ensures
        config_errors(*cfg).len() == 0 ==> r is Ok,
        config_errors(*cfg).len() > 0 ==> (r matches Err(msg) && msg@
            == "minter.toml validation failed:"@ + bullets(config_errors(*cfg))),
{
    let mut errors: Vec<&'static str> = Vec::new();
    push_problem(&mut errors, cfg.name.as_str().unicode_len() == 0, "missing 'name' field");
    push_problem(
        &mut errors,
        cfg.description.as_str().unicode_len() == 0,
        "missing 'description' field",
    );
    push_problem(&mut errors, cfg.version.as_str().unicode_len() == 0, "missing 'version' field");
    let ghost before_id = texts(errors@);
    if cfg.id.as_str().unicode_len() == 0 {
        errors.push("missing 'id' field");
    } else {
        let dotted = has_char(&cfg.id, '.');
        push_problem(
            &mut errors,
            !dotted,
            "'id' must be in reverse domain notation (e.g., com.example.plugin)",
        );
    }
    assert(texts(errors@) =~= before_id + (if cfg.id@.len() == 0 {
        seq!["missing 'id' field"@]
    } else {
        problem_if(
            !cfg.id@.contains('.'),
            "'id' must be in reverse domain notation (e.g., com.example.plugin)"@,
        )
    }));
    push_problem(&mut errors, cfg.author.as_str().unicode_len() == 0, "missing 'author' field");
    let ghost before_type = texts(errors@);
    if cfg.plugin_type.as_str().unicode_len() == 0 {
        errors.push("missing 'plugin_type' field");
    } else {
        let known = str_is(&cfg.plugin_type, "effect") || str_is(&cfg.plugin_type, "tool");
        push_problem(&mut errors, !known, "'plugin_type' must be 'effect' or 'tool'");
    }
    assert(texts(errors@) =~= before_type + (if cfg.plugin_type@.len() == 0 {
        seq!["missing 'plugin_type' field"@]
    } else {
        problem_if(
            cfg.plugin_type@ != "effect"@ && cfg.plugin_type@ != "tool"@,
            "'plugin_type' must be 'effect' or 'tool'"@,
        )
    }));
    push_problem(
        &mut errors,
        cfg.wasm_entry.as_str().unicode_len() == 0,
        "missing 'wasm_entry' field",
    );
    push_problem(&mut errors, cfg.license.as_str().unicode_len() == 0, "missing 'license' field");
    let ghost all = texts(errors@);
    assert(all =~= config_errors(*cfg));
    if errors.len() == 0 {
        return Ok(());
    }
    let mut msg = String::from_str("minter.toml validation failed:");
    let mut i: usize = 0;
    while i < errors.len()
        invariant
            i <= errors@.len(),
            all == texts(errors@),
            msg@ == "minter.toml validation failed:"@ + bullets(all.take(i as int)),
        decreases errors@.len() - i,
    {
        msg.append("\n  - ");
        msg.append(errors[i]);
        proof {
            assert(all.take(i + 1).drop_last() =~= all.take(i as int));
        }
        i += 1;
    }
    assert(all.take(all.len() as int) =~= all);
    Err(msg)
}

/// Where a plugin is minted: the explicit destination if one is given,
/// else `src/plugins/available/<id>` (an absolute id replaces the whole
/// path, as joining an absolute path does).
pub open spec fn destination(id: Seq<char>, explicit: Option<Seq<char>>) -> Seq<char> {
    match explicit {
        Some(d) => d,
        None => if id.len() > 0 && id[0] == '/' {
            id
        } else {
            "src/plugins/available/"@ + id
        },
    }
}

/// The destination directory of the minted plugin.
pub fn destination_for(cfg: &MinterConfig, explicit_dest: Option<&str>) -> (r: String)
    ensures
        r@ == destination(
            cfg.id@,
            match explicit_dest {
                Some(d) => Some(d@),
                None => None,
            },
        ),
{
    match explicit_dest {
        Some(d) => d.to_owned(),
        None => {
            let v = chars_of(cfg.id.as_str());
            if v.len() > 0 && v[0] == '/' {
                cfg.id.clone()
            } else {
                let mut s = String::from_str("src/plugins/available/");
                s.append(cfg.id.as_str());
                s
            }
        },
    }
}

/// `s` with every non-overlapping occurrence of `pat`, found scanning
/// from the left, replaced by `rep` (as `str::replace` does for a
/// non-empty `pat`).
pub open spec fn replace_all(s: Seq<char>, pat: Seq<char>, rep: Seq<char>) -> Seq<char>
    decreases s.len(),
{
    if s.len() == 0 || pat.len() == 0 {
        s
    } else if pat.len() <= s.len() && s.take(pat.len() as int) == pat {
        rep + replace_all(s.skip(pat.len() as int), pat, rep)
    } else {
        seq![s[0]] + replace_all(s.skip(1), pat, rep)
    }
}

fn matches_at(v: &Vec<char>, i: usize, p: &Vec<char>) -> (b: bool)
    requires
        i <= v@.len(),
    ensures
        b == (i + p@.len() <= v@.len() && v@.subrange(i as int, i + p@.len()) == p@),
{
    if p.len() > v.len() - i {
        return false;
    }
    let mut k: usize = 0;
    while k < p.len()
        invariant
            k <= p@.len(),
            i <= v@.len(),
            v@.len() <= usize::MAX,
            i + p@.len() <= v@.len(),
            forall|j: int| 0 <= j < k ==> v@[i + j] == p@[j],
        decreases p@.len() - k,
    {
        if v[i + k] != p[k] {
            assert(v@.subrange(i as int, i + p@.len())[k as int] != p@[k as int]);
            return false;
        }
        k += 1;
    }
    assert(v@.subrange(i as int, i + p@.len()) =~= p@);
    true
}

/// Replace every occurrence of `pat` in `s` by `rep`.
pub fn replace_all_exec(s: &str, pat: &str, rep: &str) -> (r: String)
    requires
        pat@.len() > 0,
    ensures
        r@ == replace_all(s@, pat@, rep@),
{
    let v = chars_of(s);
    let p = chars_of(pat);
    let mut out = String::new();
    let mut i: usize = 0;
    assert(s@.skip(0) =~= s@);
    while i < v.len()
        invariant
            i <= v@.len(),
            v@ == s@,
            p@ == pat@,
            p@.len() > 0,
            replace_all(s@, pat@, rep@) == out@ + replace_all(s@.skip(i as int), pat@, rep@),
        decreases v@.len() - i,
    {
        let ghost rest = s@.skip(i as int);
        let ghost before = out@;
        if matches_at(&v, i, &p) {
            proof {
                assert(rest.take(pat@.len() as int) =~= v@.subrange(i as int, i + p@.len()));
                assert(rest.skip(pat@.len() as int) =~= s@.skip(i + p@.len()));
            }
            out.append(rep);
            i = i + p.len();
            assert(before + (rep@ + replace_all(s@.skip(i as int), pat@, rep@)) =~= out@
                + replace_all(s@.skip(i as int), pat@, rep@));
        } else {
            proof {
                if pat@.len() <= rest.len() {
                    assert(rest.take(pat@.len() as int) =~= v@.subrange(i as int, i + p@.len()));
                }
                assert(rest.skip(1) =~= s@.skip(i + 1));
            }
            out.push(v[i]);
            i = i + 1;
            assert(before + (seq![rest[0]] + replace_all(s@.skip(i as int), pat@, rep@)) =~= out@
                + replace_all(s@.skip(i as int), pat@, rep@));
        }
    }
    assert(s@.skip(i as int) =~= Seq::<char>::empty());
    assert(out@ + Seq::<char>::empty() =~= out@);
    out
}

/// An optional text, or the empty text.
pub open spec fn text_or_empty(o: Option<String>) -> Seq<char> {
    match o {
        Some(s) => s@,
        None => Seq::empty(),
    }
}

/// The template text with each placeholder replaced, in this order:
/// id, version, name, description, author, type, entry, API version,
/// licence, crate name, CamelCase name, e-mail, homepage, icon.
pub open spec fn placeholders_replaced(content: Seq<char>, c: MinterConfig, crate_name: Seq<char>) -> Seq<
    char,
> {
    let s1 = replace_all(content, "PLUGIN_ID"@, c.id@);
    let s2 = replace_all(s1, "PLUGIN_VERSION"@, c.version@);
    let s3 = replace_all(s2, "PLUGIN_NAME"@, c.name@);
    let s4 = replace_all(s3, "PLUGIN_DESCRIPTION"@, c.description@);
    let s5 = replace_all(s4, "PLUGIN_AUTHOR"@, c.author@);
    let s6 = replace_all(s5, "PLUGIN_TYPE"@, c.plugin_type@);
    let s7 = replace_all(s6, "PLUGIN_WASM_ENTRY"@, c.wasm_entry@);
    let s8 = replace_all(s7, "PLUGIN_API_VERSION"@, decimal(c.api_version as nat));
    let s9 = replace_all(s8, "PLUGIN_LICENSE"@, c.license@);
    let s10 = replace_all(s9, "PLUGIN_CRATE_NAME"@, crate_name);
    let s11 = replace_all(s10, "PLUGIN_CAMEL_NAME"@, camel_case(c.name@));
    let s12 = replace_all(s11, "PLUGIN_AUTHOR_EMAIL"@, text_or_empty(c.author_email));
    let s13 = replace_all(s12, "PLUGIN_HOMEPAGE"@, text_or_empty(c.homepage));
    replace_all(s13, "PLUGIN_ICON"@, text_or_empty(c.icon))
}

fn opt_str(o: &Option<String>) -> (s: &str)
    ensures
        s@ == text_or_empty(*o),
{
    match o {
        Some(t) => t.as_str(),
        None => {
            proof {
                reveal_strlit("");
            }
            ""
        },
    }
}

/// Fill a template file's placeholders from the configuration.
pub fn replace_placeholders(content: &str, cfg: &MinterConfig, crate_name: &str) -> (r: String)
    ensures
        r@ == placeholders_replaced(content@, *cfg, crate_name@),
{
    proof {
        reveal_strlit("PLUGIN_ID");
        reveal_strlit("PLUGIN_VERSION");
        reveal_strlit("PLUGIN_NAME");
        reveal_strlit("PLUGIN_DESCRIPTION");
        reveal_strlit("PLUGIN_AUTHOR");
        reveal_strlit("PLUGIN_TYPE");
        reveal_strlit("PLUGIN_WASM_ENTRY");
        reveal_strlit("PLUGIN_API_VERSION");
        reveal_strlit("PLUGIN_LICENSE");
        reveal_strlit("PLUGIN_CRATE_NAME");
        reveal_strlit("PLUGIN_CAMEL_NAME");
        reveal_strlit("PLUGIN_AUTHOR_EMAIL");
        reveal_strlit("PLUGIN_HOMEPAGE");
        reveal_strlit("PLUGIN_ICON");
    }
    let camel = to_camel_case(cfg.name.as_str());
    let api = u64_to_decimal(cfg.api_version as u64);
    let s = replace_all_exec(content, "PLUGIN_ID", cfg.id.as_str());
    let s = replace_all_exec(s.as_str(), "PLUGIN_VERSION", cfg.version.as_str());
    let s = replace_all_exec(s.as_str(), "PLUGIN_NAME", cfg.name.as_str());
    let s = replace_all_exec(s.as_str(), "PLUGIN_DESCRIPTION", cfg.description.as_str());
    let s = replace_all_exec(s.as_str(), "PLUGIN_AUTHOR", cfg.author.as_str());
    let s = replace_all_exec(s.as_str(), "PLUGIN_TYPE", cfg.plugin_type.as_str());
    let s = replace_all_exec(s.as_str(), "PLUGIN_WASM_ENTRY", cfg.wasm_entry.as_str());
    let s = replace_all_exec(s.as_str(), "PLUGIN_API_VERSION", api.as_str());
    let s = replace_all_exec(s.as_str(), "PLUGIN_LICENSE", cfg.license.as_str());
    let s = replace_all_exec(s.as_str(), "PLUGIN_CRATE_NAME", crate_name);
    let s = replace_all_exec(s.as_str(), "PLUGIN_CAMEL_NAME", camel.as_str());
    let s = replace_all_exec(s.as_str(), "PLUGIN_AUTHOR_EMAIL", opt_str(&cfg.author_email));
    let s = replace_all_exec(s.as_str(), "PLUGIN_HOMEPAGE", opt_str(&cfg.homepage));
    replace_all_exec(s.as_str(), "PLUGIN_ICON", opt_str(&cfg.icon))
}

} // verus!

//! Rendering flattened entries as text for Terraform or Helm.
use vstd::prelude::*;
use vstd::string::*;
use crate::flatten::table;

verus! {

/// The output templates, chosen by name.
#[derive(Debug, Clone, Copy, PartialEq, Eq, Structural)]
pub enum OutputFormat {
    /// `hcl_map`: one Terraform map variable holding every entry.
    HclMap,
    /// `set_value`: one `set_value` block of the Helm release provider per entry.
    SetValue,
    /// `sensitive_value`: one `set_sensitive` block per entry.
    SensitiveValue,
    /// `helm_cli`: one `--set` flag of the Helm command line per entry.
    HelmCli,
    /// Any other name: nothing is rendered.
    Unrecognized,
}

/// The format that a selector names.
pub open spec fn format_named(name: Seq<char>) -> OutputFormat {
    if name == "hcl_map"@ {
        OutputFormat::HclMap
    } else if name == "set_value"@ {
        OutputFormat::SetValue
    } else if name == "sensitive_value"@ {
        OutputFormat::SensitiveValue
    } else if name == "helm_cli"@ {
        OutputFormat::HelmCli
    } else {
        OutputFormat::Unrecognized
    }
}

/// The text of one Helm release `set` block, as it is printed (the printer
/// adds the final newline).
pub open spec fn set_block_text(word: Seq<char>, k: Seq<char>, v: Seq<char>) -> Seq<char> {
    "\n    "@ + word + " = {\n      name = \""@ + k + "\"\n      value = \""@ + v
        + "\"\n    }\n    "@
}

/// The text that format `f` prints for one entry.
pub open spec fn entry_text(f: OutputFormat, k: Seq<char>, v: Seq<char>) -> Seq<char> {
    match f {
        OutputFormat::HclMap => "  \""@ + k + "\" = \""@ + v + "\""@,
        OutputFormat::SetValue => set_block_text("set_value"@, k, v),
        OutputFormat::SensitiveValue => set_block_text("set_sensitive"@, k, v),
        OutputFormat::HelmCli => "--set "@ + k + "=\""@ + v + "\" \\"@,
        OutputFormat::Unrecognized => Seq::empty(),
    }
}

/// The texts of all entries, in order.
pub open spec fn entry_texts(f: OutputFormat, t: Seq<(Seq<char>, Seq<char>)>) -> Seq<Seq<char>> {
    t.map_values(|e: (Seq<char>, Seq<char>)| entry_text(f, e.0, e.1))
}

/// What format `f` prints for the entries `t`, one text per print.
pub open spec fn rendered(f: OutputFormat, t: Seq<(Seq<char>, Seq<char>)>) -> Seq<Seq<char>> {
    match f {
        OutputFormat::HclMap => seq!["hcl_map = {"@] + entry_texts(f, t) + seq!["}"@],
        OutputFormat::Unrecognized => Seq::empty(),
        _ => entry_texts(f, t),
    }
}

/// The character sequences of a vector of strings.
pub open spec fn texts(v: Seq<String>) -> Seq<Seq<char>> {
    v.map_values(|s: String| s@)
}

/// The format that `name` selects; an unknown name selects `Unrecognized`.
pub fn parse_format(name: &String) -> (f: OutputFormat)
    ensures
        f == format_named(name@),
{
    if *name == String::from_str("hcl_map") {
        OutputFormat::HclMap
    } else if *name == String::from_str("set_value") {
        OutputFormat::SetValue
    } else if *name == String::from_str("sensitive_value") {
        OutputFormat::SensitiveValue
    } else if *name == String::from_str("helm_cli") {
        OutputFormat::HelmCli
    } else {
        OutputFormat::Unrecognized
    }
}

fn set_block(word: &str, key: &str, value: &str) -> (r: String)
    ensures
        r@ == set_block_text(word@, key@, value@),
{
    let mut s = String::from_str("\n    ");
    s.append(word);
    s.append(" = {\n      name = \"");
    s.append(key);
    s.append("\"\n      value = \"");
    s.append(value);
    s.append("\"\n    }\n    ");
    s
}

fn format_entry(f: OutputFormat, key: &str, value: &str) -> (r: String)
    ensures
        r@ == entry_text(f, key@, value@),
{
    match f {
        OutputFormat::HclMap => {
            let mut s = String::from_str("  \"");
            s.append(key);
            s.append("\" = \"");
            s.append(value);
            s.append("\"");
            s
        },
        OutputFormat::SetValue => set_block("set_value", key, value),
        OutputFormat::SensitiveValue => set_block("set_sensitive", key, value),
        OutputFormat::HelmCli => {
            let mut s = String::from_str("--set ");
            s.append(key);
            s.append("=\"");
            s.append(value);
            s.append("\" \\");
            s
        },
        OutputFormat::Unrecognized => String::new(),
    }
}

/// Appends the text of each entry, in order, to `lines`.
fn append_entries(f: OutputFormat, keys: &Vec<String>, values: &Vec<String>, lines: &mut Vec<String>)
    requires
        keys@.len() == values@.len(),
    ensures
        texts(final(lines)@) == texts(old(lines)@) + entry_texts(f, table(keys@, values@)),
{
    let mut i: usize = 0;
    while i < keys.len()
        invariant
            keys@.len() == values@.len(),
            i <= keys@.len(),
            texts(lines@) == texts(old(lines)@) + entry_texts(
                f,
                table(keys@, values@).subrange(0, i as int),
            ),
        decreases keys@.len() - i,
    {
        let line = format_entry(f, keys[i].as_str(), values[i].as_str());
        let ghost before = lines@;
        lines.push(line);
        assert(table(keys@, values@).subrange(0, i + 1) =~= table(keys@, values@).subrange(
            0,
            i as int,
        ).push((keys@[i as int]@, values@[i as int]@)));
        assert(texts(lines@) =~= texts(before).push(line@));
        assert(texts(lines@) =~= texts(old(lines)@) + entry_texts(
            f,
            table(keys@, values@).subrange(0, i + 1),
        ));
        i = i + 1;
    }
    assert(table(keys@, values@).subrange(0, i as int) =~= table(keys@, values@));
}

/// `hcl_map = {`, one `"key" = "value"` line per entry, then `}`.
pub fn hcl_map_lines(keys: &Vec<String>, values: &Vec<String>) -> (lines: Vec<String>)
    requires
        keys@.len() == values@.len(),
    ensures
        texts(lines@) == rendered(OutputFormat::HclMap, table(keys@, values@)),
{
    let mut lines: Vec<String> = Vec::new();
    lines.push(String::from_str("hcl_map = {"));
    append_entries(OutputFormat::HclMap, keys, values, &mut lines);
    let ghost before = lines@;
    lines.push(String::from_str("}"));
    assert(texts(lines@) =~= texts(before).push("}"@));
    assert(texts(lines@) =~= rendered(OutputFormat::HclMap, table(keys@, values@)));
    lines
}

/// One `set_value = { name = .. value = .. }` block per entry.
pub fn set_value_blocks(keys: &Vec<String>, values: &Vec<String>) -> (lines: Vec<String>)
    requires
        keys@.len() == values@.len(),
    ensures
        texts(lines@) == rendered(OutputFormat::SetValue, table(keys@, values@)),
{
    let mut lines: Vec<String> = Vec::new();
    append_entries(OutputFormat::SetValue, keys, values, &mut lines);
    assert(texts(lines@) =~= rendered(OutputFormat::SetValue, table(keys@, values@)));
    lines
}

/// One `set_sensitive = { name = .. value = .. }` block per entry.
pub fn sensitive_value_blocks(keys: &Vec<String>, values: &Vec<String>) -> (lines: Vec<String>)
    requires
        keys@.len() == values@.len(),
    ensures
        texts(lines@) == rendered(OutputFormat::SensitiveValue, table(keys@, values@)),
{
    let mut lines: Vec<String> = Vec::new();
    append_entries(OutputFormat::SensitiveValue, keys, values, &mut lines);
    assert(texts(lines@) =~= rendered(OutputFormat::SensitiveValue, table(keys@, values@)));
    lines
}

/// One `--set key="value" \` line per entry.
pub fn helm_cli_lines(keys: &Vec<String>, values: &Vec<String>) -> (lines: Vec<String>)
    requires
        keys@.len() == values@.len(),
    ensures
        texts(lines@) == rendered(OutputFormat::HelmCli, table(keys@, values@)),
{
    let mut lines: Vec<String> = Vec::new();
    append_entries(OutputFormat::HelmCli, keys, values, &mut lines);
    assert(texts(lines@) =~= rendered(OutputFormat::HelmCli, table(keys@, values@)));
    lines
}

/// The texts that the format named `format` prints for the parallel `keys`
/// and `values`, one per print, in order. An unknown name gives none.
pub fn display_output(format: String, keys: Vec<String>, values: Vec<String>) -> (lines: Vec<
    String,
>)
    requires
        keys@.len() == values@.len(),
    ensures
        texts(lines@) == rendered(format_named(format@), table(keys@, values@)),
{
    match parse_format(&format) {
        OutputFormat::HclMap => hcl_map_lines(&keys, &values),
        OutputFormat::SetValue => set_value_blocks(&keys, &values),
        OutputFormat::SensitiveValue => sensitive_value_blocks(&keys, &values),
        OutputFormat::HelmCli => helm_cli_lines(&keys, &values),
        OutputFormat::Unrecognized => {
            let lines: Vec<String> = Vec::new();
            assert(texts(lines@) =~= Seq::<Seq<char>>::empty());
            lines
        },
    }
}

/// Rendering is a function of its inputs: the same format name and the same
/// entries give the same texts, character for character.
pub proof fn lemma_rendering_is_repeatable(
    format: Seq<char>,
    keys: Seq<String>,
    values: Seq<String>,
    first: Seq<String>,
    second: Seq<String>,
)
    requires
        keys.len() == values.len(),
        texts(first) == rendered(format_named(format), table(keys, values)),
        texts(second) == rendered(format_named(format), table(keys, values)),
    ensures
        first.len() == second.len(),
        texts(first) == texts(second),
{
    assert(texts(first).len() == first.len());
    assert(texts(second).len() == second.len());
}

/// A name that is none of `hcl_map`, `set_value`, `sensitive_value` and
/// `helm_cli` renders nothing, whatever the entries.
pub proof fn lemma_unknown_format_renders_nothing(
    format: Seq<char>,
    keys: Seq<String>,
    values: Seq<String>,
    lines: Seq<String>,
)
    requires
        keys.len() == values.len(),
        format != "hcl_map"@,
        format != "set_value"@,
        format != "sensitive_value"@,
        format != "helm_cli"@,
        texts(lines) == rendered(format_named(format), table(keys, values)),
    ensures
        lines.len() == 0,
{
    assert(texts(lines).len() == lines.len());
}

} // verus!

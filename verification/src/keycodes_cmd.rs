//! The keycodes listing command: the computing part, handed a loaded
//! keycode reference and returning the text to print.

use vstd::prelude::*;
use crate::cli_common::CliError;
use crate::keycode_db::{KeycodeDb, KeycodeDefinition};
use crate::numfmt::{dec_string, usize_to_string};

verus! {

/// A string with quotes and backslashes escaped for a JSON value.
pub open spec fn json_escaped(s: Seq<char>) -> Seq<char>
    decreases s.len(),
{
    if s.len() == 0 {
        s
    } else {
        json_escaped(s.drop_last()) + (if s.last() == '"' || s.last() == '\\' {
            seq!['\\', s.last()]
        } else {
            seq![s.last()]
        })
    }
}

/// A JSON string value: the escaped text in quotes.
pub open spec fn json_string(s: Seq<char>) -> Seq<char> {
    seq!['"'] + json_escaped(s) + seq!['"']
}

/// Escapes and quotes a string for JSON.
pub fn json_string_exec(s: &str) -> (r: String)
    ensures
        r@ == json_string(s@),
{
    let n = s.unicode_len();
    let mut out = String::from_str("\"");
    let mut i: usize = 0;
    proof {
        reveal_strlit("\"");
        assert(s@.subrange(0, 0) =~= Seq::<char>::empty());
        assert(out@ =~= seq!['"'] + json_escaped(s@.subrange(0, 0)));
    }
    while i < n
        invariant
            i <= n == s@.len(),
            out@ == seq!['"'] + json_escaped(s@.subrange(0, i as int)),
        decreases n - i,
    {
        proof {
            assert(s@.subrange(0, i + 1).drop_last() =~= s@.subrange(0, i as int));
            assert(s@.subrange(0, i + 1).last() == s@[i as int]);
        }
        let c = s.get_char(i);
        if c == '"' {
            out.append("\\\"");
            proof {
                reveal_strlit("\\\"");
                assert(out@ =~= seq!['"'] + json_escaped(s@.subrange(0, i + 1)));
            }
        } else if c == '\\' {
            out.append("\\\\");
            proof {
                reveal_strlit("\\\\");
                assert(out@ =~= seq!['"'] + json_escaped(s@.subrange(0, i + 1)));
            }
        } else {
            let piece = s.substring_char(i, i + 1);
            out.append(piece);
            proof {
                assert(out@ =~= seq!['"'] + json_escaped(s@.subrange(0, i + 1)));
            }
        }
        i = i + 1;
    }
    out.append("\"");
    proof {
        reveal_strlit("\"");
        assert(s@.subrange(0, n as int) =~= s@);
        assert(out@ =~= json_string(s@));
    }
    out
}

/// One table line of the listing: code, label and category separated
/// by two spaces.
pub open spec fn spec_table_line(d: KeycodeDefinition) -> Seq<char> {
    d.code@ + "  "@ + d.name@ + "  "@ + d.category@ + (match d.description {
        Some(t) => "  "@ + t@,
        None => Seq::empty(),
    }) + "\n"@
}

/// The first `i` table lines.
pub open spec fn spec_table_lines(rows: Seq<KeycodeDefinition>, i: int) -> Seq<char>
    decreases i,
{
    if i <= 0 {
        Seq::empty()
    } else {
        spec_table_lines(rows, i - 1) + spec_table_line(rows[i - 1])
    }
}

/// The whole table: a header, the rows, and the count; a fixed notice
/// when there is nothing to list.
pub open spec fn spec_table(rows: Seq<KeycodeDefinition>) -> Seq<char> {
    if rows.len() == 0 {
        "No keycodes found.\n"@
    } else {
        "CODE  LABEL  CATEGORY  DESCRIPTION\n"@ + spec_table_lines(rows, rows.len() as int)
            + "Total: "@ + dec_string(rows.len() as nat) + " keycodes\n"@
    }
}

/// One JSON object of the listing.
pub open spec fn spec_json_row(d: KeycodeDefinition) -> Seq<char> {
    "{\"code\": "@ + json_string(d.code@) + ", \"label\": "@ + json_string(d.name@)
        + ", \"category\": "@ + json_string(d.category@) + (match d.description {
        Some(t) => ", \"description\": "@ + json_string(t@),
        None => Seq::empty(),
    }) + "}"@
}

/// The first `i` JSON objects, comma separated.
pub open spec fn spec_json_rows(rows: Seq<KeycodeDefinition>, i: int) -> Seq<char>
    decreases i,
{
    if i <= 0 {
        Seq::empty()
    } else if i == 1 {
        spec_json_row(rows[0])
    } else {
        spec_json_rows(rows, i - 1) + ", "@ + spec_json_row(rows[i - 1])
    }
}

/// The whole JSON response.
pub open spec fn spec_json(rows: Seq<KeycodeDefinition>) -> Seq<char> {
    "{\"keycodes\": ["@ + spec_json_rows(rows, rows.len() as int) + "], \"count\": "@ + dec_string(
        rows.len() as nat,
    ) + "}\n"@
}

/// Arguments of the keycodes listing command.
#[derive(Clone, Debug)]
pub struct KeycodesArgs {
    /// List only this category, when set.
    pub category: Option<String>,
    /// Emit JSON instead of the table.
    pub json: bool,
}

/// One table line, executably.
fn table_line(d: &KeycodeDefinition) -> (r: String)
    ensures
        r@ == spec_table_line(*d),
{
    let mut out = String::from_str(d.code.as_str());
    out.append("  ");
    out.append(d.name.as_str());
    out.append("  ");
    out.append(d.category.as_str());
    if let Some(t) = &d.description {
        out.append("  ");
        out.append(t.as_str());
    }
    out.append("\n");
    proof {
        assert(out@ =~= spec_table_line(*d));
    }
    out
}

/// One JSON object, executably.
fn json_row(d: &KeycodeDefinition) -> (r: String)
    ensures
        r@ == spec_json_row(*d),
{
    let mut out = String::from_str("{\"code\": ");
    out.append(json_string_exec(d.code.as_str()).as_str());
    out.append(", \"label\": ");
    out.append(json_string_exec(d.name.as_str()).as_str());
    out.append(", \"category\": ");
    out.append(json_string_exec(d.category.as_str()).as_str());
    if let Some(t) = &d.description {
        out.append(", \"description\": ");
        out.append(json_string_exec(t.as_str()).as_str());
    }
    out.append("}");
    proof {
        assert(out@ =~= spec_json_row(*d));
    }
    out
}

impl KeycodesArgs {
    /// Lists keycodes from the reference: the requested category, or
    /// the whole table, as text or JSON. Fails exactly when the
    /// requested category does not exist.
    #[verifier::loop_isolation(false)]
    pub fn execute(&self, db: &KeycodeDb) -> (r: Result<String, CliError>)
        requires
            db.keycodes@.len() <= u32::MAX,
        ensures
            r is Err <==> (self.category matches Some(c) && (forall|i: int|
                0 <= i < db.keycodes@.len() ==> (#[trigger] db.keycodes@[i]).category@ != c@)),
    {
        let rows: Vec<&KeycodeDefinition> = match &self.category {
            Some(cat) => {
                if db.get_category(cat.as_str()).is_none() {
                    let mut msg = String::from_str("Unknown category: ");
                    msg.append(cat.as_str());
                    return Err(CliError::validation(msg));
                }
                db.get_category_keycodes(cat.as_str())
            },
            None => db.search(""),
        };
        if self.json {
            Ok(Self::output_json(&rows))
        } else {
            Ok(Self::output_table(&rows))
        }
    }

    /// The JSON listing of the given rows.
    #[verifier::loop_isolation(false)]
    pub fn output_json(rows: &Vec<&KeycodeDefinition>) -> (r: String)
        requires
            rows@.len() <= u32::MAX,
        ensures
            r@ == spec_json(rows@.map_values(|d: &KeycodeDefinition| *d)),
    {
        let ghost rs = rows@.map_values(|d: &KeycodeDefinition| *d);
        let mut out = String::from_str("{\"keycodes\": [");
        let ghost head = "{\"keycodes\": ["@;
        proof {
            assert(out@ =~= head);
        }
        let n = rows.len();
        let mut i: usize = 0;
        while i < n
            invariant
                i <= n == rows@.len(),
                rs == rows@.map_values(|d: &KeycodeDefinition| *d),
                out@ == head + spec_json_rows(rs, i as int),
            decreases n - i,
        {
            if i > 0 {
                out.append(", ");
            }
            out.append(json_row(rows[i]).as_str());
            proof {
                assert(rs[i as int] == *rows@[i as int]);
                assert(out@ =~= head + spec_json_rows(rs, i + 1));
            }
            i = i + 1;
        }
        out.append("], \"count\": ");
        out.append(usize_to_string(n).as_str());
        out.append("}\n");
        proof {
            assert(out@ =~= spec_json(rs));
        }
        out
    }

    /// The plain-text table of the given rows.
    #[verifier::loop_isolation(false)]
    pub fn output_table(rows: &Vec<&KeycodeDefinition>) -> (r: String)
        requires
            rows@.len() <= u32::MAX,
        ensures
            r@ == spec_table(rows@.map_values(|d: &KeycodeDefinition| *d)),
    {
        let ghost rs = rows@.map_values(|d: &KeycodeDefinition| *d);
        let n = rows.len();
        if n == 0 {
            return String::from_str("No keycodes found.\n");
        }
        let mut out = String::from_str("CODE  LABEL  CATEGORY  DESCRIPTION\n");
        let ghost head = "CODE  LABEL  CATEGORY  DESCRIPTION\n"@;
        proof {
            assert(out@ =~= head);
        }
        let mut i: usize = 0;
        while i < n
            invariant
                i <= n == rows@.len(),
                rs == rows@.map_values(|d: &KeycodeDefinition| *d),
                out@ == head + spec_table_lines(rs, i as int),
            decreases n - i,
        {
            out.append(table_line(rows[i]).as_str());
            proof {
                assert(rs[i as int] == *rows@[i as int]);
                assert(out@ =~= head + spec_table_lines(rs, i + 1));
            }
            i = i + 1;
        }
        out.append("Total: ");
        out.append(usize_to_string(n).as_str());
        out.append(" keycodes\n");
        proof {
            assert(out@ =~= spec_table(rs));
        }
        out
    }
}

} // verus!

//! JTD validation of a `<provider>-models.jsonc` file: the schema the
//! files follow, and the message that names every violation.
use vstd::prelude::*;

use crate::config::strip_comments_spec;
use crate::models_config::{comma_scan, parse_jsonc};
use crate::provider::json_parses;
use crate::text::{join_spec, join_strings, to_owned, views};

verus! {

/// The JTD schema of a `<provider>-models.jsonc` file.
pub const MODELS_SCHEMA_JSON: &'static str = "{\"properties\":{\"provider\":{\"type\":\"string\"},\"updated\":{\"type\":\"string\"},\"models\":{\"elements\":{\"properties\":{\"id\":{\"type\":\"string\"},\"display\":{\"type\":\"string\"},\"context_window\":{\"type\":\"uint32\"}},\"optionalProperties\":{\"costs\":{\"nullable\":true,\"optionalProperties\":{\"input_per_mtok\":{\"type\":\"string\"},\"output_per_mtok\":{\"type\":\"string\"}}},\"offer\":{\"type\":\"string\"}}}}}}";

/// The violations `jtd::validate` reports for a JSON text against a JTD
/// schema text, each as its instance path and its schema path (segment by
/// segment); `None` when the schema text is not a JTD schema, the instance
/// text is not JSON, or the validation call fails (named result of
/// serde_json, `jtd::Schema::from_serde_schema` and `jtd::validate`).
pub uninterp spec fn jtd_violations(schema_json: Seq<char>, json_text: Seq<char>) -> Option<
    Seq<(Seq<Seq<char>>, Seq<Seq<char>>)>,
>;

/// The paths of reported violations, as characters.
pub open spec fn indicator_views(v: Seq<(Vec<String>, Vec<String>)>) -> Seq<(Seq<Seq<char>>, Seq<Seq<char>>)> {
    Seq::new(v.len(), |i: int| (views(v[i].0@), views(v[i].1@)))
}

/// Parse the schema text into a `jtd::SerdeSchema` and compile it
/// (`jtd::Schema::from_serde_schema`), parse the instance text with
/// `serde_json::from_str::<serde_json::Value>`, then `jtd::validate` with
/// default options: every violation's instance and schema path. `None`
/// when any step refuses (in particular whenever the instance text is not
/// JSON); which violations a given text has is named, not stated. Only the
/// models schema is admitted: it has no `ref`, so `jtd::validate` neither
/// looks up a missing definition (a panic) nor recurses without bound.
#[verifier::external_body]
fn jtd_validate_text(schema_json: &str, json_text: &str) -> (r: Option<Vec<(Vec<String>, Vec<String>)>>)
    requires
        schema_json@ == MODELS_SCHEMA_JSON@,
    ensures
        match r {
            None => jtd_violations(schema_json@, json_text@) is None,
            Some(v) => jtd_violations(schema_json@, json_text@) == Some(indicator_views(v@)),
        },
        !json_parses(json_text@) ==> r is None,
{
    let serde_schema: jtd::SerdeSchema = serde_json::from_str(schema_json).ok()?;
    let schema = jtd::Schema::from_serde_schema(serde_schema).ok()?;
    let instance: serde_json::Value = serde_json::from_str(json_text).ok()?;
    let errors = jtd::validate(&schema, &instance, jtd::ValidateOptions::new()).ok()?;
    let owned = |p: Vec<std::borrow::Cow<str>>| p.into_iter().map(|s| s.into_owned()).collect();
    Some(errors.into_iter().map(|e| (owned(e.instance_path), owned(e.schema_path))).collect())
}

/// One violation as the error message shows it:
/// `<instance path> (schema <schema path>)`, paths joined with `/`.
pub open spec fn violation_line(p: (Seq<Seq<char>>, Seq<Seq<char>>)) -> Seq<char> {
    join_spec(p.0, "/"@) + " (schema "@ + join_spec(p.1, "/"@) + ")"@
}

/// Every violation as a line, in the order they were reported.
pub open spec fn violation_lines(v: Seq<(Seq<Seq<char>>, Seq<Seq<char>>)>) -> Seq<Seq<char>> {
    Seq::new(v.len(), |i: int| violation_line(v[i]))
}

/// What validating a JSON text against the models schema answers: `Ok`
/// exactly when it is JSON and has no violation; otherwise the message.
pub open spec fn models_json_check(json: Seq<char>) -> Result<(), Seq<char>> {
    match jtd_violations(MODELS_SCHEMA_JSON@, json) {
        None => if json_parses(json) {
            Err("the models JTD schema failed to compile"@)
        } else {
            Err("invalid JSON"@)
        },
        Some(v) => if v.len() == 0 {
            Ok(())
        } else {
            Err("JTD validation failed: "@ + join_spec(violation_lines(v), "; "@))
        },
    }
}

/// Validate a JSON text against the models schema; the error names every
/// violation, with its instance and schema path.
pub fn validate_models_json(json: &str) -> (r: Result<(), String>)
    ensures
        match models_json_check(json@) {
            Ok(()) => r is Ok,
            Err(m) => r matches Err(e) && e@ == m,
        },
        r is Ok <==> jtd_violations(MODELS_SCHEMA_JSON@, json@) == Some(Seq::<(Seq<Seq<char>>, Seq<Seq<char>>)>::empty()),
{
    match jtd_validate_text(MODELS_SCHEMA_JSON, json) {
        None => {
            if crate::provider::is_json(json) {
                Err(to_owned("the models JTD schema failed to compile"))
            } else {
                Err(to_owned("invalid JSON"))
            }
        },
        Some(errors) => {
            if errors.len() == 0 {
                proof {
                    assert(indicator_views(errors@) =~= Seq::<(Seq<Seq<char>>, Seq<Seq<char>>)>::empty());
                }
                return Ok(());
            }
            let mut lines: Vec<String> = Vec::new();
            let mut i: usize = 0;
            while i < errors.len()
                invariant
                    0 <= i <= errors@.len(),
                    views(lines@) =~= violation_lines(indicator_views(errors@)).take(i as int),
                decreases errors.len() - i,
            {
                let mut line = join_strings(&errors[i].0, "/");
                line.append(" (schema ");
                let sp = join_strings(&errors[i].1, "/");
                line.append(sp.as_str());
                line.append(")");
                proof {
                    assert(indicator_views(errors@)[i as int] == (views(errors@[i as int].0@), views(
                        errors@[i as int].1@,
                    )));
                    assert(line@ == violation_lines(indicator_views(errors@))[i as int]);
                }
                let ghost before = lines@;
                lines.push(line);
                proof {
                    assert(views(lines@) =~= views(before).push(line@));
                    assert(violation_lines(indicator_views(errors@)).take(i + 1) =~= violation_lines(
                        indicator_views(errors@),
                    ).take(i as int).push(line@));
                }
                i += 1;
            }
            proof {
                assert(violation_lines(indicator_views(errors@)).take(errors@.len() as int) =~= violation_lines(
                    indicator_views(errors@),
                ));
                assert(indicator_views(errors@).len() != 0);
            }
            let mut m = to_owned("JTD validation failed: ");
            let joined = join_strings(&lines, "; ");
            m.append(joined.as_str());
            Err(m)
        },
    }
}

/// The JSON text of a models file after its JSONC laxity (comments, then
/// trailing commas) is removed.
pub open spec fn jsonc_text(raw: Seq<char>) -> Seq<char> {
    comma_scan(strip_comments_spec(raw)).0
}

/// Validate a models file's raw JSONC text against the models schema:
/// `validate_models_json` of the text with its comments and trailing commas
/// removed.
pub fn validate_models_text(raw: &str) -> (r: Result<(), String>)
    ensures
        match models_json_check(jsonc_text(raw@)) {
            Ok(()) => r is Ok,
            Err(m) => r matches Err(e) && e@ == m,
        },
        r is Ok <==> jtd_violations(MODELS_SCHEMA_JSON@, jsonc_text(raw@)) == Some(
            Seq::<(Seq<Seq<char>>, Seq<Seq<char>>)>::empty(),
        ),
{
    let json = parse_jsonc(raw);
    validate_models_json(json.as_str())
}

} // verus!

use vstd::prelude::*;

use crate::doc::{doc_lookup, doc_set, fields_model, fields_size, lemma_fields_size,
    lemma_lookup_after_set, lemma_lookup_after_set_other, spec_dob_of, spec_eval_doc,
    spec_flag_of, Doc, Value};
use crate::date::Date;
use crate::eval::spec_is_over_21;
use vstd::string::StringExecFns;

verus! {

broadcast use
    {
    vstd::std_specs::vec::group_vec_axioms,
    vstd::seq::axiom_seq_index_decreases,
    vstd::seq::axiom_seq_subrange_decreases,
};

/// The indentation in front of a node `depth` levels deep: two spaces per
/// level.
pub open spec fn spec_indent(depth: nat) -> Seq<char>
    decreases depth,
{
    if depth == 0 {
        Seq::empty()
    } else {
        spec_indent((depth - 1) as nat) + seq![' ', ' ']
    }
}

/// The pretty-printed text of a document node standing `depth` levels deep:
/// strings are quoted, booleans print as `true`/`false`, and an object opens
/// a brace, lists each field one level deeper on a line of its own, and
/// closes the brace under its own indentation. An empty object prints `{}`.
pub open spec fn spec_json(d: Doc, depth: nat) -> Seq<char>
    decreases d,
{
    match d {
        Doc::Str(s) => seq!['"'] + s + seq!['"'],
        Doc::Bool(b) => if b {
            seq!['t', 'r', 'u', 'e']
        } else {
            seq!['f', 'a', 'l', 's', 'e']
        },
        Doc::Obj(fs) => if fs.len() == 0 {
            seq!['{', '}']
        } else {
            seq!['{', '\n'] + spec_json_fields(fs, depth + 1) + spec_indent(depth) + seq!['}']
        },
    }
}

/// The field lines of an object: each field as `"key": value` at its
/// indentation, a comma after every field but the last, a newline after each.
pub open spec fn spec_json_fields(fs: Seq<(Seq<char>, Doc)>, depth: nat) -> Seq<char>
    decreases fs,
{
    if fs.len() == 0 {
        Seq::empty()
    } else {
        spec_indent(depth) + seq!['"'] + fs[0].0 + seq!['"', ':', ' '] + spec_json(fs[0].1, depth)
            + (if fs.len() == 1 {
            seq!['\n']
        } else {
            seq![',', '\n']
        }) + spec_json_fields(fs.drop_first(), depth)
    }
}

/// Append the pretty form of `v`, standing at the depth whose indentation is
/// `indent`, to `out`.
#[verifier::loop_isolation(false)]
#[verifier::rlimit(60)]
fn write_json(v: &Value, indent: &String, Ghost(depth): Ghost<nat>, out: &mut String)
    requires
        indent@ == spec_indent(depth),
    ensures
        final (out)@ == old(out)@ + spec_json(v.model(), depth),
    decreases v.size(),
{
    let ghost out_in = out@;
    proof {
        reveal_strlit("\"");
        reveal_strlit("true");
        reveal_strlit("false");
        reveal_strlit("{}");
        reveal_strlit("{\n");
        reveal_strlit("\": ");
        reveal_strlit(",\n");
        reveal_strlit("\n");
        reveal_strlit("}");
        reveal_strlit("  ");
    }
    match v {
        Value::Str(s) => {
            out.append("\"");
            out.append(s.as_str());
            out.append("\"");
            assert(out@ =~= out_in + spec_json(v.model(), depth));
        },
        Value::Bool(b) => {
            if *b {
                out.append("true");
            } else {
                out.append("false");
            }
            assert(out@ =~= out_in + spec_json(v.model(), depth));
        },
        Value::Obj(fields) => {
            proof {
                assert(v.size() == 1 + fields_size(fields@));
            }
            let ghost m = fields_model(fields@);
            if fields.len() == 0 {
                out.append("{}");
                assert(out@ =~= out_in + spec_json(v.model(), depth));
            } else {
                out.append("{\n");
                let mut inner = indent.clone();
                inner.append("  ");
                proof {
                    assert(inner@ =~= spec_indent(depth + 1));
                }
                let ghost base = out@;
                proof {
                    assert(m.skip(0) =~= m);
                }
                let n = fields.len();
                let mut i: usize = 0;
                while i < n
                    invariant
                        n == fields@.len(),
                        0 < n,
                        i <= n,
                        m == fields_model(fields@),
                        inner@ == spec_indent(depth + 1),
                        base + spec_json_fields(m, depth + 1) =~= out@ + spec_json_fields(
                            m.skip(i as int),
                            depth + 1,
                        ),
                    decreases n - i,
                {
                    let ghost out0 = out@;
                    out.append(inner.as_str());
                    out.append("\"");
                    out.append(fields[i].0.as_str());
                    out.append("\": ");
                    proof {
                        lemma_fields_size(fields@, i as int);
                    }
                    write_json(&fields[i].1, &inner, Ghost(depth + 1), out);
                    if i + 1 < n {
                        out.append(",\n");
                    } else {
                        out.append("\n");
                    }
                    proof {
                        let mi = m.skip(i as int);
                        assert(m[i as int] == (fields@[i as int].0@, fields@[i as int].1.model()));
                        assert(mi[0] == m[i as int]);
                        assert(mi.drop_first() =~= m.skip(i as int + 1));
                        assert(mi.len() == 1 <==> i as int + 1 == n);
                        assert(out@ =~= out0 + (spec_indent(depth + 1) + seq!['"'] + m[i as int].0
                            + seq!['"', ':', ' '] + spec_json(m[i as int].1, depth + 1) + (if mi.len()
                            == 1 {
                            seq!['\n']
                        } else {
                            seq![',', '\n']
                        })));
                        assert(spec_json_fields(mi, depth + 1) =~= (spec_indent(depth + 1)
                            + seq!['"'] + m[i as int].0 + seq!['"', ':', ' '] + spec_json(
                            m[i as int].1,
                            depth + 1,
                        ) + (if mi.len() == 1 {
                            seq!['\n']
                        } else {
                            seq![',', '\n']
                        })) + spec_json_fields(m.skip(i as int + 1), depth + 1));
                        assert(base + spec_json_fields(m, depth + 1) =~= out@ + spec_json_fields(
                            m.skip(i as int + 1),
                            depth + 1,
                        ));
                    }
                    i = i + 1;
                }
                out.append(indent.as_str());
                out.append("}");
                proof {
                    assert(m.skip(n as int) =~= Seq::<(Seq<char>, Doc)>::empty());
                    assert(out@ =~= out_in + spec_json(v.model(), depth));
                }
            }
        },
    }
}

/// A character that may stand in a serialized string verbatim: anything but
/// the quote, the backslash, and the control characters, which real JSON
/// would escape.
pub open spec fn plain_char(c: char) -> bool {
    c != '"' && c != '\\' && c as int >= 32
}

pub open spec fn plain_str(s: Seq<char>) -> bool {
    forall|i: int| 0 <= i < s.len() ==> plain_char(s[i])
}

/// Every string in the document — keys and leaves — prints verbatim.
pub open spec fn plain_doc(d: Doc) -> bool
    decreases d,
{
    match d {
        Doc::Str(s) => plain_str(s),
        Doc::Bool(_) => true,
        Doc::Obj(fs) => plain_fields(fs),
    }
}

pub open spec fn plain_fields(fs: Seq<(Seq<char>, Doc)>) -> bool
    decreases fs,
{
    fs.len() == 0 || (plain_str(fs[0].0) && plain_doc(fs[0].1) && plain_fields(fs.drop_first()))
}

/// Scan up to the closing quote: the characters before the first quote, and
/// what follows that quote.
pub open spec fn spec_scan_str(s: Seq<char>) -> Option<(Seq<char>, Seq<char>)>
    decreases s.len(),
{
    if s.len() == 0 {
        None
    } else if s[0] == '"' {
        Some((Seq::empty(), s.drop_first()))
    } else {
        match spec_scan_str(s.drop_first()) {
            Some((c, r)) => Some((seq![s[0]] + c, r)),
            None => None,
        }
    }
}

/// Read one node of the canonical pretty form at `depth` off the front of
/// `s`: the node and the text that follows it.
pub open spec fn spec_parse_value(s: Seq<char>, depth: nat) -> Option<(Doc, Seq<char>)>
    decreases s.len(),
{
    if s.len() >= 1 && s[0] == '"' {
        match spec_scan_str(s.drop_first()) {
            Some((c, r)) => Some((Doc::Str(c), r)),
            None => None,
        }
    } else if s.len() >= 4 && s.take(4) == seq!['t', 'r', 'u', 'e'] {
        Some((Doc::Bool(true), s.skip(4)))
    } else if s.len() >= 5 && s.take(5) == seq!['f', 'a', 'l', 's', 'e'] {
        Some((Doc::Bool(false), s.skip(5)))
    } else if s.len() >= 2 && s[0] == '{' && s[1] == '}' {
        Some((Doc::Obj(Seq::empty()), s.skip(2)))
    } else if s.len() >= 2 && s[0] == '{' && s[1] == '\n' {
        match spec_parse_fields(s.skip(2), depth + 1) {
            Some((fs, r)) => {
                let close = spec_indent(depth) + seq!['}'];
                if r.len() >= close.len() && r.take(close.len() as int) == close {
                    Some((Doc::Obj(fs), r.skip(close.len() as int)))
                } else {
                    None
                }
            },
            None => None,
        }
    } else {
        None
    }
}

/// Read the field lines of an object at `depth` off the front of `s`: the
/// fields up to and including the line without a trailing comma, and the
/// text that follows the final newline.
pub open spec fn spec_parse_fields(s: Seq<char>, depth: nat) -> Option<
    (Seq<(Seq<char>, Doc)>, Seq<char>),
>
    decreases s.len(),
{
    let ind = spec_indent(depth);
    if s.len() > ind.len() && s.take(ind.len() as int) == ind && s[ind.len() as int] == '"' {
        match spec_scan_str(s.skip(ind.len() as int + 1)) {
            Some((key, r1)) => {
                if r1.len() >= 2 && r1[0] == ':' && r1[1] == ' ' && r1.len() <= s.len() {
                    match spec_parse_value(r1.skip(2), depth) {
                        Some((v, r2)) => {
                            if r2.len() >= 2 && r2[0] == ',' && r2[1] == '\n' {
                                if r2.len() <= s.len() {
                                    match spec_parse_fields(r2.skip(2), depth) {
                                        Some((fs, r3)) => Some((seq![(key, v)] + fs, r3)),
                                        None => None,
                                    }
                                } else {
                                    None
                                }
                            } else if r2.len() >= 1 && r2[0] == '\n' {
                                Some((seq![(key, v)], r2.skip(1)))
                            } else {
                                None
                            }
                        },
                        None => None,
                    }
                } else {
                    None
                }
            },
            None => None,
        }
    } else {
        None
    }
}

/// What parsing a whole serialized document yields: the document whose
/// pretty form the entire text is.
pub open spec fn spec_parse_document(s: Seq<char>) -> Option<Doc> {
    match spec_parse_value(s, 0) {
        Some((d, rest)) => if rest.len() == 0 {
            Some(d)
        } else {
            None
        },
        None => None,
    }
}

/// Scanning text that starts with a quote-free prefix, a quote, and a tail
/// finds exactly that prefix and tail.
proof fn lemma_scan_plain(c: Seq<char>, r: Seq<char>)
    requires
        plain_str(c),
    ensures
        spec_scan_str(c + (seq!['"'] + r)) == Some((c, r)),
    decreases c.len(),
{
    let s = c + (seq!['"'] + r);
    if c.len() == 0 {
        assert(s =~= seq!['"'] + r);
        assert(s[0] == '"');
        assert(s.drop_first() =~= r);
    } else {
        assert(s[0] == c[0]);
        assert(plain_char(c[0]));
        assert forall|i: int| 0 <= i < c.drop_first().len() implies plain_char(
            c.drop_first()[i],
        ) by {
            assert(c.drop_first()[i] == c[i + 1]);
        }
        lemma_scan_plain(c.drop_first(), r);
        assert(s.drop_first() =~= c.drop_first() + (seq!['"'] + r));
        assert(seq![s[0]] + c.drop_first() =~= c);
    }
}

/// Parsing the pretty form of a node, followed by any tail, gives back
/// exactly that node and that tail.
pub proof fn lemma_parse_of_json(v: Doc, depth: nat, rest: Seq<char>)
    requires
        plain_doc(v),
    ensures
        spec_parse_value(spec_json(v, depth) + rest, depth) == Some((v, rest)),
    decreases v,
{
    let s = spec_json(v, depth) + rest;
    match v {
        Doc::Str(sv) => {
            assert(s[0] == '"');
            assert(s.drop_first() =~= sv + (seq!['"'] + rest));
            lemma_scan_plain(sv, rest);
        },
        Doc::Bool(b) => {
            if b {
                assert(s[0] == 't');
                assert(s.take(4) =~= seq!['t', 'r', 'u', 'e']);
                assert(s.skip(4) =~= rest);
            } else {
                assert(s[0] == 'f');
                assert(s.take(5) =~= seq!['f', 'a', 'l', 's', 'e']);
                assert(s.skip(5) =~= rest);
            }
        },
        Doc::Obj(fs) => {
            assert(s[0] == '{');
            if s.len() >= 4 {
                assert(s.take(4)[0] == s[0]);
            }
            if s.len() >= 5 {
                assert(s.take(5)[0] == s[0]);
            }
            if fs.len() == 0 {
                assert(s[0] == '{' && s[1] == '}');
                assert(s.skip(2) =~= rest);
                assert(fs =~= Seq::<(Seq<char>, Doc)>::empty());
                assert(v =~= Doc::Obj(Seq::empty()));
            } else {
                assert(s[0] == '{' && s[1] == '\n');
                let close = spec_indent(depth) + seq!['}'];
                let rest2 = close + rest;
                assert(s.skip(2) =~= spec_json_fields(fs, depth + 1) + rest2);
                lemma_parse_fields_of_json(fs, depth + 1, rest2);
                assert(rest2.take(close.len() as int) =~= close);
                assert(rest2.skip(close.len() as int) =~= rest);
            }
        },
    }
}

/// Parsing the field lines of a non-empty field list, followed by any tail,
/// gives back exactly those fields and that tail.
pub proof fn lemma_parse_fields_of_json(fs: Seq<(Seq<char>, Doc)>, depth: nat, rest: Seq<char>)
    requires
        plain_fields(fs),
        fs.len() >= 1,
    ensures
        spec_parse_fields(spec_json_fields(fs, depth) + rest, depth) == Some((fs, rest)),
    decreases fs,
{
    let s = spec_json_fields(fs, depth) + rest;
    let ind = spec_indent(depth);
    let key = fs[0].0;
    let v = fs[0].1;
    let sep: Seq<char> = if fs.len() == 1 {
        seq!['\n']
    } else {
        seq![',', '\n']
    };
    let tail = spec_json_fields(fs.drop_first(), depth);
    let after_val = sep + (tail + rest);
    assert(s =~= ind + (seq!['"'] + (key + (seq!['"'] + (seq![':', ' '] + (spec_json(v, depth)
        + after_val))))));
    assert(s.take(ind.len() as int) =~= ind);
    assert(s[ind.len() as int] == '"');
    let r1 = seq![':', ' '] + (spec_json(v, depth) + after_val);
    assert(s.skip(ind.len() as int + 1) =~= key + (seq!['"'] + r1));
    lemma_scan_plain(key, r1);
    assert(r1[0] == ':' && r1[1] == ' ');
    assert(r1.skip(2) =~= spec_json(v, depth) + after_val);
    lemma_parse_of_json(v, depth, after_val);
    if fs.len() == 1 {
        assert(tail =~= Seq::<char>::empty());
        assert(after_val[0] == '\n');
        assert(after_val.skip(1) =~= rest);
        assert(seq![(key, v)] =~= fs);
    } else {
        assert(after_val[0] == ',' && after_val[1] == '\n');
        assert(after_val.skip(2) =~= tail + rest);
        lemma_parse_fields_of_json(fs.drop_first(), depth, rest);
        assert(seq![(key, v)] + fs.drop_first() =~= fs);
    }
}

/// Each field of a plain field list is itself plain.
proof fn lemma_plain_fields_index(fs: Seq<(Seq<char>, Doc)>, i: int)
    requires
        plain_fields(fs),
        0 <= i < fs.len(),
    ensures
        plain_str(fs[i].0),
        plain_doc(fs[i].1),
    decreases i,
{
    if i > 0 {
        lemma_plain_fields_index(fs.drop_first(), i - 1);
    }
}

/// Round trip: parsing the pretty-printed text of a plain document yields
/// exactly that document.
pub proof fn lemma_json_round_trip(d: Doc)
    requires
        plain_doc(d),
    ensures
        spec_parse_document(spec_json(d, 0)) == Some(d),
{
    lemma_parse_of_json(d, 0, Seq::empty());
    assert(spec_json(d, 0) + Seq::<char>::empty() =~= spec_json(d, 0));
}

/// A value looked up in a plain field list is itself plain.
proof fn lemma_plain_lookup(fs: Seq<(Seq<char>, Doc)>, key: Seq<char>, v: Doc)
    requires
        plain_fields(fs),
        doc_lookup(fs, key) == Some(v),
    ensures
        plain_doc(v),
    decreases fs.len(),
{
    if fs.len() > 0 && fs[0].0 != key {
        lemma_plain_lookup(fs.drop_first(), key, v);
    }
}

/// Binding a plain key to a plain value keeps a plain field list plain.
proof fn lemma_plain_set(fs: Seq<(Seq<char>, Doc)>, key: Seq<char>, v: Doc)
    requires
        plain_fields(fs),
        plain_str(key),
        plain_doc(v),
    ensures
        plain_fields(doc_set(fs, key, v)),
    decreases fs.len(),
{
    if fs.len() == 0 {
        assert(seq![(key, v)].drop_first() =~= Seq::<(Seq<char>, Doc)>::empty());
        assert(plain_fields(seq![(key, v)].drop_first()));
    } else if fs[0].0 == key {
        assert(fs.update(0, (key, v)).drop_first() =~= fs.drop_first());
    } else {
        lemma_plain_set(fs.drop_first(), key, v);
        let c = seq![fs[0]] + doc_set(fs.drop_first(), key, v);
        assert(c[0] == fs[0]);
        assert(c.drop_first() =~= doc_set(fs.drop_first(), key, v));
    }
}

/// Round trip through the evaluated document: the text the library prints
/// for an evaluated document parses back to exactly that document, the
/// `user.dob` it carries is the one evaluated, and its `user.is_over_21`
/// equals the evaluator's result for that date-of-birth string.
pub proof fn lemma_round_trip_evaluated(d: Doc, today: Date)
    requires
        plain_doc(d),
        spec_eval_doc(d, today) is Ok,
    ensures
        spec_parse_document(spec_json(spec_eval_doc(d, today)->Ok_0, 0)) == Some(
            spec_eval_doc(d, today)->Ok_0,
        ),
        spec_dob_of(spec_eval_doc(d, today)->Ok_0) == spec_dob_of(d),
        spec_dob_of(d) matches Some(s) && spec_flag_of(spec_eval_doc(d, today)->Ok_0) == Some(
            spec_is_over_21(s, today)->Ok_0,
        ),
{
    reveal_strlit("user");
    reveal_strlit("dob");
    reveal_strlit("is_over_21");
    let top = d->Obj_0;
    let user = doc_lookup(top, "user"@)->Some_0->Obj_0;
    let s = doc_lookup(user, "dob"@)->Some_0->Str_0;
    let b = spec_is_over_21(s, today)->Ok_0;
    let user2 = doc_set(user, "is_over_21"@, Doc::Bool(b));
    let top2 = doc_set(top, "user"@, Doc::Obj(user2));
    let d2 = spec_eval_doc(d, today)->Ok_0;
    assert(d2 == Doc::Obj(top2));
    lemma_lookup_after_set(top, "user"@, Doc::Obj(user2));
    lemma_lookup_after_set(user, "is_over_21"@, Doc::Bool(b));
    assert("dob"@.len() == 3 && "is_over_21"@.len() == 10);
    assert("dob"@ != "is_over_21"@);
    lemma_lookup_after_set_other(user, "is_over_21"@, Doc::Bool(b), "dob"@);
    assert(spec_flag_of(d2) == Some(b));
    assert(spec_dob_of(d2) == Some(s));
    lemma_plain_lookup(top, "user"@, Doc::Obj(user));
    assert(plain_str("is_over_21"@));
    lemma_plain_set(user, "is_over_21"@, Doc::Bool(b));
    assert(plain_str("user"@));
    lemma_plain_set(top, "user"@, Doc::Obj(user2));
    assert(plain_doc(d2));
    lemma_json_round_trip(d2);
}

/// The pretty-printed JSON text of the whole document.
pub fn to_json_pretty(v: &Value) -> (r: String)
    ensures
        r@ == spec_json(v.model(), 0),
{
    let mut out = String::new();
    let indent = String::new();
    write_json(v, &indent, Ghost(0nat), &mut out);
    out
}

} // verus!

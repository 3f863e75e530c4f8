use vstd::prelude::*;

use crate::render::{
    decimal, decimal_i64, decimal_u64, join_messages, joined, messages, render_value,
    signed_decimal, value_text, ErrorChain, ErrorStep, Value,
};
use crate::sanitize::{sanitize_key, sanitized};

verus! {

/// A field as the journal receives it: a name and a value.
pub type FieldView = (Seq<char>, Seq<char>);

/// The view of a list of fields.
pub open spec fn fields_view(v: Seq<(String, String)>) -> Seq<FieldView> {
    v.map_values(|f: (String, String)| (f.0@, f.1@))
}

/// One `ERRNO` field for each error of the chain that carries an
/// operating-system error code, in chain order.
pub open spec fn errno_fields(steps: Seq<ErrorStep>) -> Seq<FieldView>
    decreases steps.len(),
{
    if steps.len() == 0 {
        Seq::empty()
    } else {
        let prev = errno_fields(steps.drop_last());
        match steps.last().os_error {
            Some(code) => prev.push(("ERRNO"@, signed_decimal(code as int))),
            None => prev,
        }
    }
}

/// The `ERROR_SOURCE_<n>` field of the error at depth `n` of a chain.
pub open spec fn source_field(steps: Seq<ErrorStep>, n: int) -> FieldView {
    ("ERROR_SOURCE_"@ + decimal(n as nat), steps[n].message@)
}

/// One numbered field for each error of the chain, then the chain's depth.
pub open spec fn source_fields(steps: Seq<ErrorStep>) -> Seq<FieldView> {
    Seq::new(steps.len(), |n: int| source_field(steps, n)).push(
        ("ERROR_SOURCE_DEPTH"@, decimal(steps.len())),
    )
}

/// The fields an error value gives: the optional `ERRNO` fields, the
/// optional numbered cause fields, and last the error under its own key.
pub open spec fn error_fields(
    emit_errno: bool,
    emit_error_sources: bool,
    key: Seq<char>,
    steps: Seq<ErrorStep>,
) -> Seq<FieldView> {
    (if emit_errno {
        errno_fields(steps)
    } else {
        Seq::empty()
    }) + (if emit_error_sources {
        source_fields(steps)
    } else {
        Seq::empty()
    }) + seq![(sanitized(key), joined(messages(steps)))]
}

/// The fields one attribute gives.
pub open spec fn value_fields(
    emit_errno: bool,
    emit_error_sources: bool,
    key: Seq<char>,
    v: Value,
) -> Seq<FieldView> {
    match v {
        Value::Error(e) => error_fields(emit_errno, emit_error_sources, key, e.steps@),
        _ => seq![(sanitized(key), value_text(v))],
    }
}

/// An error with two causes is written on one line as `"top: cause: cause"`.
/// Without the optional fields an error gives that one field under its
/// sanitized key; with the cause fields (and no `ERRNO` fields) it gives
/// exactly one numbered field per error of the chain and one field holding
/// the depth before it.
pub proof fn lemma_error_chain_fields(key: Seq<char>, steps: Seq<ErrorStep>)
    ensures
        steps.len() == 3 ==> joined(messages(steps)) == steps[0].message@ + seq![':', ' ']
            + steps[1].message@ + seq![':', ' '] + steps[2].message@,
        error_fields(false, false, key, steps) == seq![(sanitized(key), joined(messages(steps)))],
        error_fields(false, true, key, steps).len() == steps.len() + 2,
        forall|n: int|
            0 <= n < steps.len() ==> #[trigger] error_fields(false, true, key, steps)[n] == (
            "ERROR_SOURCE_"@ + decimal(n as nat),
            steps[n].message@,
        ),
        error_fields(false, true, key, steps)[steps.len() as int] == (
            "ERROR_SOURCE_DEPTH"@,
            decimal(steps.len()),
        ),
{
    if steps.len() == 3 {
        let m = messages(steps);
        assert(m.drop_last().drop_last().len() == 1);
        assert(m.drop_last().drop_last()[0] == m[0]);
        assert(m.drop_last().last() == m[1]);
        assert(m.last() == m[2]);
        assert(joined(m.drop_last().drop_last()) == m[0]);
        assert(joined(m.drop_last()) == m[0] + seq![':', ' '] + m[1]);
        assert(joined(m) == m[0] + seq![':', ' '] + m[1] + seq![':', ' '] + m[2]);
    }
    assert(error_fields(false, false, key, steps) =~= seq![
        (sanitized(key), joined(messages(steps))),
    ]);
    let with_sources = error_fields(false, true, key, steps);
    assert(with_sources =~= source_fields(steps) + seq![
        (sanitized(key), joined(messages(steps))),
    ]);
}

/// The fields of one event, in the order they were added.
pub struct Serializer {
    fields: Vec<(String, String)>,
    emit_errno: bool,
    emit_error_sources: bool,
}

impl View for Serializer {
    type V = Seq<FieldView>;

    closed spec fn view(&self) -> Seq<FieldView> {
        fields_view(self.fields@)
    }
}

impl Serializer {
    /// Whether errors add an `ERRNO` field for each operating-system code.
    pub closed spec fn errno_enabled(&self) -> bool {
        self.emit_errno
    }

    /// Whether errors add a numbered field for each cause, and the depth.
    pub closed spec fn error_sources_enabled(&self) -> bool {
        self.emit_error_sources
    }

    /// An empty field list; errors are written as a single field.
    pub fn new() -> (r: Serializer)
        ensures
            r@ == Seq::<FieldView>::empty(),
            !r.errno_enabled(),
            !r.error_sources_enabled(),
    {
        Serializer { fields: Vec::new(), emit_errno: false, emit_error_sources: false }
    }

    /// An empty field list, with the given treatment of errors.
    pub fn with_options(emit_errno: bool, emit_error_sources: bool) -> (r: Serializer)
        ensures
            r@ == Seq::<FieldView>::empty(),
            r.errno_enabled() == emit_errno,
            r.error_sources_enabled() == emit_error_sources,
    {
        Serializer { fields: Vec::new(), emit_errno, emit_error_sources }
    }

    /// Adds a field whose key is taken as it is, without sanitizing it.
    pub fn add_field(&mut self, key: String, value: String)
        ensures
            final(self)@ == old(self)@.push((key@, value@)),
            final(self).errno_enabled() == old(self).errno_enabled(),
            final(self).error_sources_enabled() == old(self).error_sources_enabled(),
    {
        self.fields.push((key, value));
        proof {
            assert(self@ =~= old(self)@.push((key@, value@)));
        }
    }

    /// Adds the fields of one attribute, under its sanitized key.
    pub fn emit(&mut self, key: &str, value: &Value)
        ensures
            final(self)@ == old(self)@ + value_fields(
                old(self).errno_enabled(),
                old(self).error_sources_enabled(),
                key@,
                *value,
            ),
            final(self).errno_enabled() == old(self).errno_enabled(),
            final(self).error_sources_enabled() == old(self).error_sources_enabled(),
    {
        match value {
            Value::Error(e) => self.emit_error(key, e),
            _ => {
                let k = sanitize_key(key);
                let v = render_value(value);
                self.add_field(k, v);
                assert(self@ =~= old(self)@ + seq![(sanitized(key@), value_text(*value))]);
            },
        }
    }

    /// Adds the fields of an error attribute: its `ERRNO` and numbered cause
    /// fields where those are enabled, then the whole chain on one line
    /// under the sanitized key.
    pub fn emit_error(&mut self, key: &str, error: &ErrorChain)
        ensures
            final(self)@ == old(self)@ + error_fields(
                old(self).errno_enabled(),
                old(self).error_sources_enabled(),
                key@,
                error.steps@,
            ),
            final(self).errno_enabled() == old(self).errno_enabled(),
            final(self).error_sources_enabled() == old(self).error_sources_enabled(),
    {
        let steps = &error.steps;
        if self.emit_errno {
            let ghost base = self@;
            let mut i: usize = 0;
            while i < steps.len()
                invariant
                    i <= steps.len(),
                    self@ == base + errno_fields(steps@.subrange(0, i as int)),
                    self.emit_errno == old(self).emit_errno,
                    self.emit_error_sources == old(self).emit_error_sources,
                decreases steps.len() - i,
            {
                proof {
                    assert(steps@.subrange(0, i + 1).drop_last() == steps@.subrange(0, i as int));
                }
                match steps[i].os_error {
                    Some(code) => {
                        self.add_field(String::from_str("ERRNO"), decimal_i64(code as i64));
                    },
                    None => {},
                }
                i = i + 1;
            }
            proof {
                assert(steps@.subrange(0, steps.len() as int) == steps@);
            }
        }
        let ghost after_errno = self@;
        if self.emit_error_sources {
            let mut depth: usize = 0;
            while depth < steps.len()
                invariant
                    depth <= steps.len(),
                    self@ == after_errno + Seq::new(
                        depth as nat,
                        |n: int| source_field(steps@, n),
                    ),
                    self.emit_errno == old(self).emit_errno,
                    self.emit_error_sources == old(self).emit_error_sources,
                decreases steps.len() - depth,
            {
                let prefix = String::from_str("ERROR_SOURCE_");
                let number = decimal_u64(depth as u64);
                let name = prefix.concat(number.as_str());
                self.add_field(name, steps[depth].message.clone());
                proof {
                    assert(Seq::new((depth + 1) as nat, |n: int| source_field(steps@, n))
                        =~= Seq::new(depth as nat, |n: int| source_field(steps@, n)).push(
                        source_field(steps@, depth as int),
                    ));
                }
                depth = depth + 1;
            }
            self.add_field(String::from_str("ERROR_SOURCE_DEPTH"), decimal_u64(depth as u64));
            proof {
                assert(self@ =~= after_errno + source_fields(steps@));
            }
        }
        let k = sanitize_key(key);
        let v = join_messages(steps);
        self.add_field(k, v);
        proof {
            assert(self@ =~= old(self)@ + error_fields(
                old(self).errno_enabled(),
                old(self).error_sources_enabled(),
                key@,
                steps@,
            ));
        }
    }

    /// The fields added so far.
    pub fn fields(&self) -> (r: &Vec<(String, String)>)
        ensures
            fields_view(r@) == self@,
    {
        &self.fields
    }

    /// Gives up the serializer for its fields.
    pub fn into_fields(self) -> (r: Vec<(String, String)>)
        ensures
            fields_view(r@) == self@,
    {
        self.fields
    }
}

} // verus!

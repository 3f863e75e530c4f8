use vstd::prelude::*;

use libsystemd::errors::SdError;
use slog::Error as SlogError;

use crate::level::{level_to_priority, priority_of, Priority, Severity};
use crate::render::{decimal, decimal_u64, Value};
use crate::serializer::{fields_view, value_fields, FieldView, Serializer};

verus! {

/// slog's serialization error, carried through unopened in
/// `Error::Serialization`.
#[verifier::external_type_specification]
#[verifier::external_body]
pub struct ExSlogError(SlogError);

/// libsystemd's error for a failed send, carried through unopened in
/// `Error::Journald`.
#[verifier::external_type_specification]
#[verifier::external_body]
pub struct ExSdError(SdError);

/// Error type for logging to journald.
pub enum Error {
    /// The journal refused the record.
    Journald(SdError),
    /// An attribute source failed while its pairs were read.
    Serialization(SlogError),
}

impl From<SlogError> for Error {
    fn from(e: SlogError) -> (r: Error)
        ensures
            r == Error::Serialization(e),
    {
        Error::Serialization(e)
    }
}

impl vstd::std_specs::convert::FromSpecImpl<SlogError> for Error {
    open spec fn obeys_from_spec() -> bool {
        true
    }

    open spec fn from_spec(e: SlogError) -> Error {
        Error::Serialization(e)
    }
}

/// What the drain reads of a log event besides its attributes.
pub struct RecordInfo {
    pub level: Severity,
    pub message: String,
    pub file: String,
    pub line: u32,
    pub module: String,
    pub function: String,
}

/// One key/value pair of an attribute source.
pub struct Attribute {
    pub key: String,
    pub value: Value,
}

/// The pairs of one logging context, or the failure met while reading them.
pub type AttributeSource = Result<Vec<Attribute>, SlogError>;

/// A record ready for the journal: priority and message travel beside the
/// fields, and the journal adds them as `PRIORITY` and `MESSAGE`.
pub struct Submission {
    pub priority: Priority,
    pub message: String,
    pub fields: Vec<(String, String)>,
}

/// Drain records and send them to journald as structured data. Keys are
/// upper-cased and other characters are turned into underscores; errors can
/// add their operating-system codes and their causes as fields of their own.
pub struct JournaldDrain {
    pub emit_errno: bool,
    pub emit_error_sources: bool,
}

/// The source-location fields that open every record.
pub open spec fn code_fields(info: RecordInfo) -> Seq<FieldView> {
    seq![
        ("CODE_FILE"@, info.file@),
        ("CODE_LINE"@, decimal(info.line as nat)),
        ("CODE_MODULE"@, info.module@),
        ("CODE_FUNCTION"@, info.function@),
    ]
}

/// The fields of the pairs of one source, in the source's order.
pub open spec fn attribute_fields(
    emit_errno: bool,
    emit_error_sources: bool,
    attrs: Seq<Attribute>,
) -> Seq<FieldView>
    decreases attrs.len(),
{
    if attrs.len() == 0 {
        Seq::empty()
    } else {
        attribute_fields(emit_errno, emit_error_sources, attrs.drop_last()) + value_fields(
            emit_errno,
            emit_error_sources,
            attrs.last().key@,
            attrs.last().value,
        )
    }
}

/// The fields of several sources, one source after the other.
pub open spec fn sources_fields(
    emit_errno: bool,
    emit_error_sources: bool,
    sources: Seq<Seq<Attribute>>,
) -> Seq<FieldView>
    decreases sources.len(),
{
    if sources.len() == 0 {
        Seq::empty()
    } else {
        sources_fields(emit_errno, emit_error_sources, sources.drop_last()) + attribute_fields(
            emit_errno,
            emit_error_sources,
            sources.last(),
        )
    }
}

/// The fields of a whole record: source location first, then the sources.
pub open spec fn record_fields(
    emit_errno: bool,
    emit_error_sources: bool,
    info: RecordInfo,
    sources: Seq<Seq<Attribute>>,
) -> Seq<FieldView> {
    code_fields(info) + sources_fields(emit_errno, emit_error_sources, sources)
}

/// Every source could be read.
pub open spec fn all_read(sources: Seq<AttributeSource>) -> bool {
    forall|i: int| 0 <= i < sources.len() ==> (#[trigger] sources[i]) is Ok
}

/// The pairs of sources that could all be read.
pub open spec fn source_pairs(sources: Seq<AttributeSource>) -> Seq<Seq<Attribute>> {
    sources.map_values(|s: AttributeSource| s->Ok_0@)
}

/// `i` is the first source that could not be read.
pub open spec fn first_failure(sources: Seq<AttributeSource>, i: int) -> bool {
    &&& 0 <= i < sources.len()
    &&& sources[i] is Err
    &&& all_read(sources.subrange(0, i))
}

/// The source-location fields open every record and the sources' fields
/// follow them: those of a later source, such as the event's own pairs
/// after its ancestors', come after all those of the earlier ones.
pub proof fn lemma_record_field_order(
    emit_errno: bool,
    emit_error_sources: bool,
    info: RecordInfo,
    ancestors: Seq<Seq<Attribute>>,
    local: Seq<Attribute>,
)
    ensures
        record_fields(emit_errno, emit_error_sources, info, ancestors.push(local)).subrange(0, 4)
            == code_fields(info),
        record_fields(emit_errno, emit_error_sources, info, ancestors.push(local))
            == record_fields(emit_errno, emit_error_sources, info, ancestors) + attribute_fields(
            emit_errno,
            emit_error_sources,
            local,
        ),
{
    let all = ancestors.push(local);
    assert(all.drop_last() == ancestors);
    let r = record_fields(emit_errno, emit_error_sources, info, all);
    assert(r.subrange(0, 4) =~= code_fields(info));
    assert(r =~= record_fields(emit_errno, emit_error_sources, info, ancestors) + attribute_fields(
        emit_errno,
        emit_error_sources,
        local,
    ));
}

impl JournaldDrain {
    /// A drain that writes each error as a single field.
    pub fn new() -> (r: JournaldDrain)
        ensures
            !r.emit_errno,
            !r.emit_error_sources,
    {
        JournaldDrain { emit_errno: false, emit_error_sources: false }
    }

    /// Turns one event into the record to submit. The sources are read in
    /// the order given, ancestors first; the first one that failed turns the
    /// whole event into a serialization error, and no record is produced.
    pub fn assemble(&self, info: &RecordInfo, sources: Vec<AttributeSource>) -> (r: Result<
        Submission,
        Error,
    >)
        ensures
            r is Ok <==> all_read(sources@),
            r matches Ok(sub) ==> {
                &&& sub.priority == priority_of(info.level)
                &&& sub.message@ == info.message@
                &&& fields_view(sub.fields@) == record_fields(
                    self.emit_errno,
                    self.emit_error_sources,
                    *info,
                    source_pairs(sources@),
                )
            },
            r matches Err(e) ==> exists|i: int|
                first_failure(sources@, i) && e == Error::Serialization(sources@[i]->Err_0),
    {
        let ghost srcs = sources@;
        let mut serializer = Serializer::with_options(self.emit_errno, self.emit_error_sources);
        serializer.add_field(String::from_str("CODE_FILE"), info.file.clone());
        serializer.add_field(String::from_str("CODE_LINE"), decimal_u64(info.line as u64));
        serializer.add_field(String::from_str("CODE_MODULE"), info.module.clone());
        serializer.add_field(String::from_str("CODE_FUNCTION"), info.function.clone());
        proof {
            assert(serializer@ =~= code_fields(*info));
        }
        for source in it: sources.into_iter()
            invariant
                it.seq() == srcs,
                all_read(srcs.subrange(0, it.index() as int)),
                serializer.errno_enabled() == self.emit_errno,
                serializer.error_sources_enabled() == self.emit_error_sources,
                serializer@ == record_fields(
                    self.emit_errno,
                    self.emit_error_sources,
                    *info,
                    source_pairs(srcs.subrange(0, it.index() as int)),
                ),
        {
            let ghost i = it.index() as int;
            match source {
                Ok(attrs) => {
                    let ghost before = serializer@;
                    let mut k: usize = 0;
                    while k < attrs.len()
                        invariant
                            k <= attrs.len(),
                            serializer.errno_enabled() == self.emit_errno,
                            serializer.error_sources_enabled() == self.emit_error_sources,
                            serializer@ == before + attribute_fields(
                                self.emit_errno,
                                self.emit_error_sources,
                                attrs@.subrange(0, k as int),
                            ),
                        decreases attrs.len() - k,
                    {
                        serializer.emit(attrs[k].key.as_str(), &attrs[k].value);
                        proof {
                            let next = attrs@.subrange(0, k + 1);
                            assert(next.drop_last() == attrs@.subrange(0, k as int));
                        }
                        k = k + 1;
                    }
                    proof {
                        assert(attrs@.subrange(0, attrs.len() as int) == attrs@);
                        let done = srcs.subrange(0, i + 1);
                        assert(done.drop_last() == srcs.subrange(0, i));
                        assert(source_pairs(done).drop_last() == source_pairs(
                            srcs.subrange(0, i),
                        ));
                        assert(source_pairs(done).last() == attrs@);
                        assert(all_read(done)) by {
                            assert forall|j: int| 0 <= j < done.len() implies (
                            #[trigger] done[j]) is Ok by {
                                if j < i {
                                    assert(done[j] == srcs.subrange(0, i)[j]);
                                }
                            }
                        }
                    }
                },
                Err(e) => {
                    proof {
                        assert(first_failure(srcs, i));
                        assert(!all_read(srcs));
                    }
                    return Err(Error::Serialization(e));
                },
            }
        }
        proof {
            assert(srcs.subrange(0, srcs.len() as int) == srcs);
        }
        let fields = serializer.into_fields();
        Ok(
            Submission {
                priority: level_to_priority(info.level),
                message: info.message.clone(),
                fields,
            },
        )
    }
}

} // verus!

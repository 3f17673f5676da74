//! The catalog of protocol features, and the entries of a feature list.

use vstd::prelude::*;

use crate::parse::{
    bytes_eq, find_byte, first_index_of, skip, take, ErrorKind, Parsed, ParsedView, EQUALS, MINUS,
    PLUS, SEMICOLON,
};
use crate::text::{encoding_is_injective, spec_text, text_of};

verus! {

/// The features that this stub knows by name.
#[allow(non_camel_case_types)]
#[derive(Copy, Clone, Debug, PartialEq, Eq)]
pub enum GDBFeature {
    multiprocess,
    xmlRegisters,
    qRelocInsn,
    swbreak,
    hwbreak,
    fork_events,
    vfork_events,
    exec_events,
    vContSupported,
    // these are not listed in the docs but GDB sends them
    no_resumed,
    QThreadEvents,
}

impl GDBFeature {
    /// The name of the feature on the wire.
    pub open spec fn wire_name(self) -> Seq<char> {
        match self {
            GDBFeature::multiprocess => "multiprocess"@,
            GDBFeature::xmlRegisters => "xmlRegisters"@,
            GDBFeature::qRelocInsn => "qRelocInsn"@,
            GDBFeature::swbreak => "swbreak"@,
            GDBFeature::hwbreak => "hwbreak"@,
            GDBFeature::fork_events => "fork-events"@,
            GDBFeature::vfork_events => "vfork-events"@,
            GDBFeature::exec_events => "exec-events"@,
            GDBFeature::vContSupported => "vContSupported"@,
            GDBFeature::no_resumed => "no-resumed"@,
            GDBFeature::QThreadEvents => "QThreadEvents"@,
        }
    }

    /// The feature that goes by `name` on the wire, if there is one. Names are
    /// compared exactly, case included.
    pub open spec fn spec_from_name(name: Seq<char>) -> Option<GDBFeature> {
        if name == GDBFeature::multiprocess.wire_name() {
            Some(GDBFeature::multiprocess)
        } else if name == GDBFeature::xmlRegisters.wire_name() {
            Some(GDBFeature::xmlRegisters)
        } else if name == GDBFeature::qRelocInsn.wire_name() {
            Some(GDBFeature::qRelocInsn)
        } else if name == GDBFeature::swbreak.wire_name() {
            Some(GDBFeature::swbreak)
        } else if name == GDBFeature::hwbreak.wire_name() {
            Some(GDBFeature::hwbreak)
        } else if name == GDBFeature::fork_events.wire_name() {
            Some(GDBFeature::fork_events)
        } else if name == GDBFeature::vfork_events.wire_name() {
            Some(GDBFeature::vfork_events)
        } else if name == GDBFeature::exec_events.wire_name() {
            Some(GDBFeature::exec_events)
        } else if name == GDBFeature::vContSupported.wire_name() {
            Some(GDBFeature::vContSupported)
        } else if name == GDBFeature::no_resumed.wire_name() {
            Some(GDBFeature::no_resumed)
        } else if name == GDBFeature::QThreadEvents.wire_name() {
            Some(GDBFeature::QThreadEvents)
        } else {
            None
        }
    }

    /// The name of the feature on the wire.
    pub fn name(self) -> (name: &'static str)
        ensures
            name@ == self.wire_name(),
    {
        match self {
            GDBFeature::multiprocess => "multiprocess",
            GDBFeature::xmlRegisters => "xmlRegisters",
            GDBFeature::qRelocInsn => "qRelocInsn",
            GDBFeature::swbreak => "swbreak",
            GDBFeature::hwbreak => "hwbreak",
            GDBFeature::fork_events => "fork-events",
            GDBFeature::vfork_events => "vfork-events",
            GDBFeature::exec_events => "exec-events",
            GDBFeature::vContSupported => "vContSupported",
            GDBFeature::no_resumed => "no-resumed",
            GDBFeature::QThreadEvents => "QThreadEvents",
        }
    }

    /// Whether `name` is the wire name of this feature.
    pub fn is_named(self, name: &str) -> (same: bool)
        ensures
            same == (name@ == self.wire_name()),
    {
        let own = self.name();
        let same = bytes_eq(name.as_bytes(), own.as_bytes());
        proof {
            if same {
                encoding_is_injective(name@, own@);
            }
        }
        same
    }

    /// Looks `name` up in the catalog.
    pub fn from_name(name: &str) -> (feature: Option<GDBFeature>)
        ensures
            feature == GDBFeature::spec_from_name(name@),
    {
        if GDBFeature::multiprocess.is_named(name) {
            Some(GDBFeature::multiprocess)
        } else if GDBFeature::xmlRegisters.is_named(name) {
            Some(GDBFeature::xmlRegisters)
        } else if GDBFeature::qRelocInsn.is_named(name) {
            Some(GDBFeature::qRelocInsn)
        } else if GDBFeature::swbreak.is_named(name) {
            Some(GDBFeature::swbreak)
        } else if GDBFeature::hwbreak.is_named(name) {
            Some(GDBFeature::hwbreak)
        } else if GDBFeature::fork_events.is_named(name) {
            Some(GDBFeature::fork_events)
        } else if GDBFeature::vfork_events.is_named(name) {
            Some(GDBFeature::vfork_events)
        } else if GDBFeature::exec_events.is_named(name) {
            Some(GDBFeature::exec_events)
        } else if GDBFeature::vContSupported.is_named(name) {
            Some(GDBFeature::vContSupported)
        } else if GDBFeature::no_resumed.is_named(name) {
            Some(GDBFeature::no_resumed)
        } else if GDBFeature::QThreadEvents.is_named(name) {
            Some(GDBFeature::QThreadEvents)
        } else {
            None
        }
    }
}

/// The catalog maps both ways: a name is looked up as a feature exactly where
/// it is that feature's wire name. So no two features share a name, and every
/// feature is found again by its own.
pub proof fn catalog_maps_both_ways(feature: GDBFeature, name: Seq<char>)
    ensures
        GDBFeature::spec_from_name(name) == Some(feature) <==> name == feature.wire_name(),
        GDBFeature::spec_from_name(feature.wire_name()) == Some(feature),
{
    reveal_strlit("multiprocess");
    reveal_strlit("xmlRegisters");
    reveal_strlit("qRelocInsn");
    reveal_strlit("swbreak");
    reveal_strlit("hwbreak");
    reveal_strlit("fork-events");
    reveal_strlit("vfork-events");
    reveal_strlit("exec-events");
    reveal_strlit("vContSupported");
    reveal_strlit("no-resumed");
    reveal_strlit("QThreadEvents");
    assert("multiprocess"@.len() == 12 && "multiprocess"@[0] == 'm');
    assert("xmlRegisters"@.len() == 12 && "xmlRegisters"@[0] == 'x');
    assert("qRelocInsn"@.len() == 10 && "qRelocInsn"@[0] == 'q');
    assert("swbreak"@.len() == 7 && "swbreak"@[0] == 's');
    assert("hwbreak"@.len() == 7 && "hwbreak"@[0] == 'h');
    assert("fork-events"@.len() == 11 && "fork-events"@[0] == 'f');
    assert("vfork-events"@.len() == 12 && "vfork-events"@[0] == 'v');
    assert("exec-events"@.len() == 11 && "exec-events"@[0] == 'e');
    assert("vContSupported"@.len() == 14 && "vContSupported"@[0] == 'v');
    assert("no-resumed"@.len() == 10 && "no-resumed"@[0] == 'n');
    assert("QThreadEvents"@.len() == 13 && "QThreadEvents"@[0] == 'Q');
}

/// A feature by its identity: one of the catalog, or the name as it was sent.
#[derive(Debug, PartialEq, Eq)]
pub enum Known<'a> {
    Yes(GDBFeature),
    No(&'a str),
}

/// Mathematical counterpart of [`Known`].
pub enum KnownView {
    Yes(GDBFeature),
    No(Seq<char>),
}

impl<'a> View for Known<'a> {
    type V = KnownView;

    open spec fn view(&self) -> KnownView {
        match *self {
            Known::Yes(feature) => KnownView::Yes(feature),
            Known::No(name) => KnownView::No(name@),
        }
    }
}

/// What the peer says of a feature.
#[derive(Debug, PartialEq, Eq)]
pub enum FeatureSupported<'a> {
    Yes,
    No,
    #[allow(unused)]
    Maybe,
    Value(&'a str),
}

/// Mathematical counterpart of [`FeatureSupported`].
pub enum FeatureSupportedView {
    Yes,
    No,
    Maybe,
    Value(Seq<char>),
}

impl<'a> View for FeatureSupported<'a> {
    type V = FeatureSupportedView;

    open spec fn view(&self) -> FeatureSupportedView {
        match *self {
            FeatureSupported::Yes => FeatureSupportedView::Yes,
            FeatureSupported::No => FeatureSupportedView::No,
            FeatureSupported::Maybe => FeatureSupportedView::Maybe,
            FeatureSupported::Value(value) => FeatureSupportedView::Value(value@),
        }
    }
}

/// One entry of a feature list: a feature and what the peer says of it.
#[derive(Debug, PartialEq, Eq)]
pub struct GDBFeatureSupported<'a>(pub Known<'a>, pub FeatureSupported<'a>);

impl<'a> View for GDBFeatureSupported<'a> {
    type V = (KnownView, FeatureSupportedView);

    open spec fn view(&self) -> (KnownView, FeatureSupportedView) {
        (self.0@, self.1@)
    }
}

/// The feature that the bytes of a name stand for: the catalog's feature where
/// the name is in the catalog, else the name itself; nothing where the bytes
/// are not UTF-8.
pub open spec fn spec_known(name: Seq<u8>) -> Option<KnownView> {
    match spec_text(name) {
        Some(text) => match GDBFeature::spec_from_name(text) {
            Some(feature) => Some(KnownView::Yes(feature)),
            None => Some(KnownView::No(text)),
        },
        None => None,
    }
}

/// The view of an optional value.
pub open spec fn option_view<T: View>(value: Option<T>) -> Option<T::V> {
    match value {
        Some(v) => Some(v@),
        None => None,
    }
}

/// Resolves the bytes of a feature's name against the catalog.
pub fn known<'a>(name: &'a [u8]) -> (feature: Option<Known<'a>>)
    ensures
        option_view(feature) == spec_known(name@),
{
    match text_of(name) {
        Some(text) => match GDBFeature::from_name(text) {
            Some(feature) => Some(Known::Yes(feature)),
            None => Some(Known::No(text)),
        },
        None => None,
    }
}

/// Where the name at the start of `input` ends: at the first `;` or `=`, or at
/// the end of `input`.
pub open spec fn name_end(input: Seq<u8>) -> int {
    let semicolon = first_index_of(input, SEMICOLON);
    let equals = first_index_of(input, EQUALS);
    if semicolon <= equals {
        semicolon
    } else {
        equals
    }
}

/// What `gdbfeature` makes of `input`: the feature named by the bytes before
/// the first `;` or `=`. Input that starts with one of the two is rejected, and
/// so is a name that is not UTF-8.
pub open spec fn spec_gdbfeature(input: Seq<u8>) -> ParsedView<KnownView> {
    let end = name_end(input);
    if input.len() > 0 && end == 0 {
        ParsedView::Error(ErrorKind::MalformedFeatureEntry)
    } else {
        match spec_known(input.take(end)) {
            Some(feature) => ParsedView::Done(input.skip(end), feature),
            None => ParsedView::Error(ErrorKind::MalformedFeatureEntry),
        }
    }
}

/// Parses a feature's name from the start of `input`.
pub fn gdbfeature<'a>(input: &'a [u8]) -> (parsed: Parsed<'a, Known<'a>>)
    ensures
        parsed@ == spec_gdbfeature(input@),
{
    let semicolon = find_byte(input, SEMICOLON);
    let equals = find_byte(input, EQUALS);
    let end = if semicolon <= equals {
        semicolon
    } else {
        equals
    };
    if input.len() > 0 && end == 0 {
        return Parsed::Error(ErrorKind::MalformedFeatureEntry);
    }
    match known(take(input, end)) {
        Some(feature) => Parsed::Done(skip(input, end), feature),
        None => Parsed::Error(ErrorKind::MalformedFeatureEntry),
    }
}

/// What one entry of a feature list says. The entry is a name and one
/// trailing mark: where its last byte is `+` or `-`, that byte is the mark and
/// all before it the name; else the first `=` parts the name from a value. An
/// entry that is empty, that has neither mark nor `=`, or whose name or value is
/// not UTF-8, says nothing.
pub open spec fn spec_entry(entry: Seq<u8>) -> Option<(KnownView, FeatureSupportedView)> {
    if entry.len() == 0 {
        None
    } else if entry.last() == PLUS {
        match spec_known(entry.drop_last()) {
            Some(feature) => Some((feature, FeatureSupportedView::Yes)),
            None => None,
        }
    } else if entry.last() == MINUS {
        match spec_known(entry.drop_last()) {
            Some(feature) => Some((feature, FeatureSupportedView::No)),
            None => None,
        }
    } else {
        let equals = first_index_of(entry, EQUALS);
        if equals == entry.len() {
            None
        } else {
            match (spec_known(entry.take(equals)), spec_text(entry.skip(equals + 1))) {
                (Some(feature), Some(value)) => Some((feature, FeatureSupportedView::Value(value))),
                _ => None,
            }
        }
    }
}

/// Reads one entry of a feature list, without its separators.
pub fn feature_entry<'a>(entry: &'a [u8]) -> (parsed: Option<GDBFeatureSupported<'a>>)
    ensures
        option_view(parsed) == spec_entry(entry@),
{
    let len = entry.len();
    if len == 0 {
        return None;
    }
    let last = entry[len - 1];
    if last == PLUS || last == MINUS {
        let name = take(entry, len - 1);
        assert(name@ == entry@.drop_last());
        match known(name) {
            Some(feature) => if last == PLUS {
                Some(GDBFeatureSupported(feature, FeatureSupported::Yes))
            } else {
                Some(GDBFeatureSupported(feature, FeatureSupported::No))
            },
            None => None,
        }
    } else {
        let equals = find_byte(entry, EQUALS);
        if equals == len {
            return None;
        }
        match (known(take(entry, equals)), text_of(skip(entry, equals + 1))) {
            (Some(feature), Some(value)) => Some(
                GDBFeatureSupported(feature, FeatureSupported::Value(value)),
            ),
            _ => None,
        }
    }
}

/// What `gdbfeaturesupported` makes of `input`: the entry that the bytes
/// before the first `;` hold, with the `;` and what follows it left over.
pub open spec fn spec_gdbfeaturesupported(input: Seq<u8>) -> ParsedView<
    (KnownView, FeatureSupportedView),
> {
    let end = first_index_of(input, SEMICOLON);
    match spec_entry(input.take(end)) {
        Some(entry) => ParsedView::Done(input.skip(end), entry),
        None => ParsedView::Error(ErrorKind::MalformedFeatureEntry),
    }
}

/// Parses one entry of a feature list from the start of `input`.
pub fn gdbfeaturesupported<'a>(input: &'a [u8]) -> (parsed: Parsed<'a, GDBFeatureSupported<'a>>)
    ensures
        parsed@ == spec_gdbfeaturesupported(input@),
{
    let end = find_byte(input, SEMICOLON);
    match feature_entry(take(input, end)) {
        Some(entry) => Parsed::Done(skip(input, end), entry),
        None => Parsed::Error(ErrorKind::MalformedFeatureEntry),
    }
}

} // verus!

//! Fully qualified domain names, in the order of DNS and in prefix order.

use vstd::prelude::*;

use crate::octets;
use crate::text;

verus! {

/// Why a text is no fully qualified domain name.
#[derive(Clone, Copy, Debug, PartialEq, Eq)]
pub enum FqdnError {
    /// The text does not end in a dot.
    TrailingDotMissing,
    /// The bytes do not end in a nul.
    TrailingNulCharMissing,
    /// A label holds something else than letters, digits, `-`, `_` and `#`.
    InvalidLabelChar,
    /// The bytes do not make a sequence of labels.
    InvalidStructure,
    /// The name is too long.
    TooLongDomainName,
    /// A label has more than 255 bytes.
    TooLongLabel,
    /// A label starts with a hyphen.
    LabelCannotStartWithHyphen,
    /// A label ends with a hyphen.
    LabelCannotEndWithHyphen,
    /// Two dots stand next to each other, or the text starts with a dot.
    EmptyLabel,
}

impl FqdnError {
    /// The error in words.
    pub open spec fn words(self) -> Seq<char> {
        match self {
            FqdnError::TrailingDotMissing => "the trailing dot of the FQDN string is missing"@,
            FqdnError::TrailingNulCharMissing =>
                "the trailing nul byte of the FQDN bytes is missing"@,
            FqdnError::InvalidLabelChar => "invalid char found in FQDN"@,
            FqdnError::InvalidStructure => "invalid FQDN byte sequence"@,
            FqdnError::TooLongDomainName => "too long FQDN"@,
            FqdnError::TooLongLabel => "too long label found in FQDN"@,
            FqdnError::LabelCannotStartWithHyphen => "FQDN label can’t start with a hyphen"@,
            FqdnError::LabelCannotEndWithHyphen => "FQDN label can’t end with a hyphen"@,
            FqdnError::EmptyLabel => "empty label found in FQDN"@,
        }
    }

    /// The error in words.
    pub fn message(&self) -> (r: String)
        ensures
            r@ == self.words(),
    {
        let message = match self {
            FqdnError::TrailingDotMissing => "the trailing dot of the FQDN string is missing",
            FqdnError::TrailingNulCharMissing =>
                "the trailing nul byte of the FQDN bytes is missing",
            FqdnError::InvalidLabelChar => "invalid char found in FQDN",
            FqdnError::InvalidStructure => "invalid FQDN byte sequence",
            FqdnError::TooLongDomainName => "too long FQDN",
            FqdnError::TooLongLabel => "too long label found in FQDN",
            FqdnError::LabelCannotStartWithHyphen => "FQDN label can’t start with a hyphen",
            FqdnError::LabelCannotEndWithHyphen => "FQDN label can’t end with a hyphen",
            FqdnError::EmptyLabel => "empty label found in FQDN",
        };
        message.to_string()
    }
}

/// The characters that a label may be written with.
pub open spec fn label_char(c: char) -> bool {
    ||| 'a' <= c <= 'z'
    ||| 'A' <= c <= 'Z'
    ||| '0' <= c <= '9'
    ||| c == '-'
    ||| c == '_'
    ||| c == '#'
}

/// `c`, in lower case where it is a letter from `A` to `Z`.
pub open spec fn lower(c: char) -> char {
    if 'A' <= c <= 'Z' {
        (c as int + 32) as char
    } else {
        c
    }
}

/// The label that `label` is the spelling of, in lower case.
pub open spec fn checked_label(label: Seq<char>) -> Result<Seq<char>, FqdnError> {
    if vstd::utf8::encode_utf8(label).len() > 255 {
        Err(FqdnError::TooLongLabel)
    } else if label.len() == 0 {
        Err(FqdnError::EmptyLabel)
    } else if exists|i: int| 0 <= i < label.len() && !label_char(#[trigger] label[i]) {
        Err(FqdnError::InvalidLabelChar)
    } else {
        Ok(Seq::new(label.len(), |i: int| lower(label[i])))
    }
}

/// The labels that `labels` are the spellings of, or what is wrong with the first that is none.
pub open spec fn checked_labels(labels: Seq<Seq<char>>) -> Result<Seq<Seq<char>>, FqdnError>
    decreases labels.len(),
{
    if labels.len() == 0 {
        Ok(Seq::empty())
    } else {
        match checked_labels(labels.drop_last()) {
            Err(e) => Err(e),
            Ok(done) => match checked_label(labels.last()) {
                Err(e) => Err(e),
                Ok(label) => Ok(done.push(label)),
            },
        }
    }
}

/// The labels of the name that `name` spells. A name ends in a dot, and `.` alone is the root,
/// which has no labels.
pub open spec fn parsed_name(name: Seq<char>) -> Result<Seq<Seq<char>>, FqdnError> {
    if name.len() == 0 || name.last() != '.' {
        Err(FqdnError::TrailingDotMissing)
    } else if name.len() == 1 {
        Ok(Seq::empty())
    } else {
        checked_labels(text::split(name.drop_last(), '.'))
    }
}

/// Labels as a parsed name has them: of 1 to 255 characters, in lower case.
pub open spec fn valid_labels(labels: Seq<Seq<char>>) -> bool {
    forall|i: int|
        0 <= i < labels.len() ==> {
            &&& 1 <= #[trigger] labels[i].len() <= 255
            &&& forall|j: int|
                0 <= j < labels[i].len() ==> label_char(#[trigger] labels[i][j]) && lower(
                    labels[i][j],
                ) == labels[i][j]
        }
}

/// The name with these labels, in the order of DNS: each label followed by a dot, and `.` for the
/// root.
pub open spec fn name_text(labels: Seq<Seq<char>>) -> Seq<char> {
    if labels.len() == 0 {
        "."@
    } else {
        text::join(labels, "."@) + "."@
    }
}

/// The name with these labels, from the top level down: a dot, then the labels in reverse with
/// dots between them.
pub open spec fn prefix_order_text(labels: Seq<Seq<char>>) -> Seq<char> {
    "."@ + text::join(labels.reverse(), "."@)
}

/// The labels of the name that `name` spells from the top level down.
pub open spec fn parsed_prefix_order(name: Seq<char>) -> Result<Seq<Seq<char>>, FqdnError> {
    let pieces = text::split(text::trim_start(name, "."@), '.');
    parsed_name(text::join(pieces.reverse(), "."@) + "."@)
}

/// The labels as DNS sends them: each behind its length.
pub open spec fn wire(labels: Seq<Seq<char>>) -> Seq<u8>
    decreases labels.len(),
{
    if labels.len() == 0 {
        Seq::empty()
    } else {
        wire(labels.drop_last()).push(labels.last().len() as u8) + vstd::utf8::encode_utf8(
            labels.last(),
        )
    }
}

/// How two names compare: as DNS sends them, byte by byte.
pub open spec fn name_order(a: Seq<Seq<char>>, b: Seq<Seq<char>>) -> std::cmp::Ordering {
    if octets::lex_less(wire(a), wire(b)) {
        std::cmp::Ordering::Less
    } else if octets::lex_less(wire(b), wire(a)) {
        std::cmp::Ordering::Greater
    } else {
        std::cmp::Ordering::Equal
    }
}

/// A fully qualified domain name, as its labels in the order of DNS.
#[derive(Debug, PartialEq, Eq, Ord, Hash)]
pub struct Fqdn {
    sent: Vec<u8>,
    labels: Vec<String>,
}

impl Clone for Fqdn {
    fn clone(&self) -> (r: Fqdn)
        ensures
            r@ == self@,
    {
        proof {
            use_type_invariant(self);
        }
        Fqdn {
            sent: octets::copy_bytes(self.sent.as_slice()),
            labels: text::copy_texts(&self.labels),
        }
    }
}

impl vstd::std_specs::cmp::PartialOrdSpecImpl for Fqdn {
    open spec fn obeys_partial_cmp_spec() -> bool {
        true
    }

    open spec fn partial_cmp_spec(&self, other: &Fqdn) -> Option<std::cmp::Ordering> {
        Some(name_order(self@, other@))
    }
}

impl PartialOrd for Fqdn {
    fn partial_cmp(&self, other: &Fqdn) -> (r: Option<std::cmp::Ordering>) {
        proof {
            use_type_invariant(self);
            use_type_invariant(other);
        }
        if octets::bytes_less(self.sent.as_slice(), other.sent.as_slice()) {
            Some(std::cmp::Ordering::Less)
        } else if octets::bytes_less(other.sent.as_slice(), self.sent.as_slice()) {
            Some(std::cmp::Ordering::Greater)
        } else {
            Some(std::cmp::Ordering::Equal)
        }
    }
}

fn write_wire(labels: &Vec<String>) -> (r: Vec<u8>)
    requires
        valid_labels(text::text_views(labels@)),
    ensures
        r@ == wire(text::text_views(labels@)),
{
    let ghost views = text::text_views(labels@);
    let mut sent: Vec<u8> = Vec::new();
    let mut i: usize = 0;
    assert(views.take(0) =~= Seq::empty());
    while i < labels.len()
        invariant
            i <= labels.len(),
            views == text::text_views(labels@),
            valid_labels(views),
            sent@ == wire(views.take(i as int)),
        decreases labels.len() - i,
    {
        proof {
            assert(views.take(i + 1).drop_last() =~= views.take(i as int));
            assert(views.take(i + 1).last() == labels@[i as int]@);
            assert(1 <= views[i as int].len() <= 255);
        }
        let length: usize = labels[i].as_str().unicode_len();
        sent.push(length as u8);
        let mut bytes = octets::copy_bytes(labels[i].as_str().as_bytes());
        sent.append(&mut bytes);
        i += 1;
    }
    assert(views.take(views.len() as int) =~= views);
    sent
}

impl View for Fqdn {
    type V = Seq<Seq<char>>;

    closed spec fn view(&self) -> Seq<Seq<char>> {
        text::text_views(self.labels@)
    }
}

impl Fqdn {
    #[verifier::type_invariant]
    spec fn consistent(&self) -> bool {
        &&& valid_labels(self@)
        &&& self.sent@ == wire(self@)
    }

    /// Whether the labels are those of a parsed name.
    pub open spec fn valid(&self) -> bool {
        valid_labels(self@)
    }

    /// Parses a name that is written in the order of DNS and ends in a dot.
    pub fn from_ascii_str(name: &str) -> (r: Result<Fqdn, FqdnError>)
        ensures
            match r {
                Ok(fqdn) => {
                    &&& parsed_name(name@) == Ok::<Seq<Seq<char>>, FqdnError>(fqdn@)
                    &&& fqdn.valid()
                },
                Err(e) => parsed_name(name@) == Err::<Seq<Seq<char>>, FqdnError>(e),
            },
    {
        match parse_labels(name) {
            Ok(labels) => {
                proof {
                    lemma_parsed_is_valid(name@);
                }
                Ok(Fqdn { sent: write_wire(&labels), labels })
            },
            Err(e) => Err(e),
        }
    }

    /// The labels, in the order of DNS.
    pub fn labels(&self) -> (r: &Vec<String>)
        ensures
            text::text_views(r@) == self@,
    {
        &self.labels
    }

    /// Writes the name in the order of DNS.
    pub fn to_string(&self) -> (r: String)
        ensures
            r@ == name_text(self@),
    {
        if self.labels.len() == 0 {
            ".".to_string()
        } else {
            let mut name = text::join_texts(&self.labels, ".");
            name.append(".");
            name
        }
    }
}

/// Trusted: `fqdn::FQDN::from_ascii_str`, built so that names end in a dot, refuses a text without
/// that dot, then cuts the rest at the dots and refuses the first label of more than 255 bytes,
/// without characters, or with another character than a label may have. `Fqdn::labels` gives the
/// labels in order and in lower case.
#[verifier::external_body]
fn parse_labels(name: &str) -> (r: Result<Vec<String>, FqdnError>)
    ensures
        match r {
            Ok(labels) => parsed_name(name@) == Ok::<Seq<Seq<char>>, FqdnError>(
                text::text_views(labels@),
            ),
            Err(e) => parsed_name(name@) == Err::<Seq<Seq<char>>, FqdnError>(e),
        },
{
    let name = fqdn::FQDN::from_ascii_str(name).map_err(|e| match e {
        fqdn::Error::TrailingDotMissing => FqdnError::TrailingDotMissing,
        fqdn::Error::TrailingNulCharMissing => FqdnError::TrailingNulCharMissing,
        fqdn::Error::InvalidLabelChar => FqdnError::InvalidLabelChar,
        fqdn::Error::InvalidStructure => FqdnError::InvalidStructure,
        fqdn::Error::TooLongDomainName => FqdnError::TooLongDomainName,
        fqdn::Error::TooLongLabel => FqdnError::TooLongLabel,
        fqdn::Error::LabelCannotStartWithHyphen => FqdnError::LabelCannotStartWithHyphen,
        fqdn::Error::LabelCannotEndWithHyphen => FqdnError::LabelCannotEndWithHyphen,
        fqdn::Error::EmptyLabel => FqdnError::EmptyLabel,
    })?;
    Ok(name.labels().map(|label| label.to_string()).collect())
}

/// A domain.
#[derive(Clone, Debug, PartialEq, Eq, PartialOrd, Ord, Hash)]
pub struct Domain {
    pub name: Fqdn,
}

impl View for Domain {
    type V = Seq<Seq<char>>;

    open spec fn view(&self) -> Seq<Seq<char>> {
        self.name@
    }
}

impl Domain {
    /// Writes the name in the order of DNS.
    pub fn to_string(&self) -> (r: String)
        ensures
            r@ == name_text(self@),
    {
        self.name.to_string()
    }
}

/// A domain that is treated as a zone.
#[derive(Clone, Debug, PartialEq, Eq, PartialOrd, Ord, Hash)]
pub struct Zone {
    pub name: Fqdn,
}

impl View for Zone {
    type V = Seq<Seq<char>>;

    open spec fn view(&self) -> Seq<Seq<char>> {
        self.name@
    }
}

impl Zone {
    /// Writes the name in the order of DNS.
    pub fn to_string(&self) -> (r: String)
        ensures
            r@ == name_text(self@),
    {
        self.name.to_string()
    }
}

/// A domain that is written and parsed from the top level down.
#[derive(Clone, Debug, PartialEq, Eq, PartialOrd, Ord, Hash)]
pub struct PrefixOrderDomain {
    pub name: Fqdn,
}

impl View for PrefixOrderDomain {
    type V = Seq<Seq<char>>;

    open spec fn view(&self) -> Seq<Seq<char>> {
        self.name@
    }
}

impl PrefixOrderDomain {
    /// Writes the name from the top level down.
    pub fn to_string(&self) -> (r: String)
        ensures
            r@ == prefix_order_text(self@),
    {
        let labels = reversed(self.name.labels());
        let mut name = ".".to_string();
        name.append(text::join_texts(&labels, ".").as_str());
        name
    }

    /// Parses a name that is written from the top level down. Dots in front are ignored.
    pub fn from_str(name: &str) -> (r: Result<PrefixOrderDomain, FqdnError>)
        ensures
            match r {
                Ok(domain) => {
                    &&& parsed_prefix_order(name@) == Ok::<Seq<Seq<char>>, FqdnError>(domain@)
                    &&& domain.name.valid()
                },
                Err(e) => parsed_prefix_order(name@) == Err::<Seq<Seq<char>>, FqdnError>(e),
            },
    {
        let pieces = text::split_text(text::trim_start_text(name, "."), '.');
        let labels = reversed(&pieces);
        let mut spelled = text::join_texts(&labels, ".");
        spelled.append(".");
        match Fqdn::from_ascii_str(spelled.as_str()) {
            Ok(name) => Ok(PrefixOrderDomain { name }),
            Err(e) => Err(e),
        }
    }
}

impl vstd::std_specs::convert::FromSpecImpl<Domain> for PrefixOrderDomain {
    open spec fn obeys_from_spec() -> bool {
        true
    }

    open spec fn from_spec(domain: Domain) -> PrefixOrderDomain {
        PrefixOrderDomain { name: domain.name }
    }
}

impl From<Domain> for PrefixOrderDomain {
    fn from(domain: Domain) -> (r: PrefixOrderDomain) {
        PrefixOrderDomain { name: domain.name }
    }
}

impl vstd::std_specs::convert::FromSpecImpl<PrefixOrderDomain> for Domain {
    open spec fn obeys_from_spec() -> bool {
        true
    }

    open spec fn from_spec(domain: PrefixOrderDomain) -> Domain {
        Domain { name: domain.name }
    }
}

impl From<PrefixOrderDomain> for Domain {
    fn from(domain: PrefixOrderDomain) -> (r: Domain) {
        Domain { name: domain.name }
    }
}

impl vstd::std_specs::convert::FromSpecImpl<Fqdn> for Domain {
    open spec fn obeys_from_spec() -> bool {
        true
    }

    open spec fn from_spec(name: Fqdn) -> Domain {
        Domain { name }
    }
}

impl From<Fqdn> for Domain {
    fn from(name: Fqdn) -> (r: Domain) {
        Domain { name }
    }
}

impl vstd::std_specs::convert::FromSpecImpl<Domain> for Fqdn {
    open spec fn obeys_from_spec() -> bool {
        true
    }

    open spec fn from_spec(domain: Domain) -> Fqdn {
        domain.name
    }
}

impl From<Domain> for Fqdn {
    fn from(domain: Domain) -> (r: Fqdn) {
        domain.name
    }
}

fn reversed(texts: &Vec<String>) -> (r: Vec<String>)
    ensures
        text::text_views(r@) == text::text_views(texts@).reverse(),
{
    let mut result: Vec<String> = Vec::new();
    let mut i: usize = texts.len();
    while i > 0
        invariant
            i <= texts.len(),
            result@.len() == texts.len() - i,
            forall|j: int|
                0 <= j < result@.len() ==> (#[trigger] result@[j])@ == texts@[texts.len() - 1 - j]@,
        decreases i,
    {
        i -= 1;
        result.push(texts[i].as_str().to_string());
    }
    assert(text::text_views(result@) =~= text::text_views(texts@).reverse());
    result
}

proof fn lemma_checked_labels_valid(labels: Seq<Seq<char>>)
    ensures
        checked_labels(labels) matches Ok(done) ==> valid_labels(done),
    decreases labels.len(),
{
    if labels.len() > 0 {
        lemma_checked_labels_valid(labels.drop_last());
        if let Ok(done) = checked_labels(labels.drop_last()) {
            if let Ok(label) = checked_label(labels.last()) {
                let spelled = labels.last();
                assert forall|j: int| 0 <= j < label.len() implies label_char(#[trigger] label[j])
                    && lower(label[j]) == label[j] by {
                    assert(label_char(spelled[j]));
                }
                assert(vstd::utf8::is_ascii_chars(spelled)) by {
                    assert forall|j: int| 0 <= j < spelled.len() implies '\0'
                        <= #[trigger] spelled[j] <= '\u{7f}' by {
                        assert(label_char(spelled[j]));
                    }
                }
                vstd::utf8::is_ascii_chars_encode_utf8(spelled);
                assert(label.len() <= 255);
            }
        }
    }
}

/// A parsed name has valid labels.
pub proof fn lemma_parsed_is_valid(name: Seq<char>)
    ensures
        parsed_name(name) matches Ok(labels) ==> valid_labels(labels),
{
    if name.len() > 1 {
        lemma_checked_labels_valid(text::split(name.drop_last(), '.'));
    }
}

proof fn lemma_valid_labels_checked(labels: Seq<Seq<char>>)
    requires
        valid_labels(labels),
    ensures
        checked_labels(labels) == Ok::<Seq<Seq<char>>, FqdnError>(labels),
    decreases labels.len(),
{
    if labels.len() > 0 {
        let rest = labels.drop_last();
        let label = labels.last();
        assert(valid_labels(rest)) by {
            assert forall|i: int| 0 <= i < rest.len() implies {
                &&& 1 <= #[trigger] rest[i].len() <= 255
                &&& forall|j: int|
                    0 <= j < rest[i].len() ==> label_char(#[trigger] rest[i][j]) && lower(
                        rest[i][j],
                    ) == rest[i][j]
            } by {
                assert(rest[i] == labels[i]);
            }
        }
        lemma_valid_labels_checked(rest);
        assert(label == labels[labels.len() - 1]);
        assert(vstd::utf8::is_ascii_chars(label)) by {
            assert forall|j: int| 0 <= j < label.len() implies '\0' <= #[trigger] label[j]
                <= '\u{7f}' by {
                assert(label_char(label[j]));
            }
        }
        vstd::utf8::is_ascii_chars_encode_utf8(label);
        assert(Seq::new(label.len(), |i: int| lower(label[i])) =~= label);
        assert(rest.push(label) =~= labels);
    } else {
        assert(labels =~= Seq::empty());
    }
}

pub(crate) proof fn lemma_labels_lack_dots(labels: Seq<Seq<char>>)
    requires
        valid_labels(labels),
    ensures
        forall|i: int| 0 <= i < labels.len() ==> text::lacks(#[trigger] labels[i], '.'),
{
    assert forall|i: int| 0 <= i < labels.len() implies text::lacks(#[trigger] labels[i], '.') by {
        assert forall|j: int| 0 <= j < labels[i].len() implies #[trigger] labels[i][j] != '.' by {
            assert(label_char(labels[i][j]));
        }
    }
}

/// A name that was written in the order of DNS parses to the name that was written.
pub proof fn lemma_name_round_trip(labels: Seq<Seq<char>>)
    requires
        valid_labels(labels),
    ensures
        parsed_name(name_text(labels)) == Ok::<Seq<Seq<char>>, FqdnError>(labels),
{
    reveal_strlit(".");
    let name = name_text(labels);
    if labels.len() == 0 {
        assert(labels =~= Seq::empty());
    } else {
        let joined = text::join(labels, "."@);
        lemma_labels_lack_dots(labels);
        assert("."@ =~= seq!['.']);
        text::lemma_split_join(labels, '.', "."@);
        text::lemma_join_not_empty(labels, "."@);
        assert(name.drop_last() =~= joined);
        lemma_valid_labels_checked(labels);
    }
}

/// A name that was written from the top level down parses to the name that was written.
pub proof fn lemma_prefix_order_round_trip(labels: Seq<Seq<char>>)
    requires
        valid_labels(labels),
    ensures
        parsed_prefix_order(prefix_order_text(labels)) == Ok::<Seq<Seq<char>>, FqdnError>(labels),
{
    reveal_strlit(".");
    let backward = labels.reverse();
    let joined = text::join(backward, "."@);
    let name = prefix_order_text(labels);
    assert(name.skip(1) =~= joined);
    assert("."@.is_prefix_of(name)) by {
        assert(name.subrange(0, 1) =~= "."@);
    }
    assert(text::trim_start(name, "."@) == text::trim_start(joined, "."@));
    if labels.len() == 0 {
        assert(joined =~= Seq::empty());
        assert(text::trim_start(joined, "."@) == joined);
        assert(text::split(joined, '.').reverse() =~= seq![Seq::<char>::empty()]);
        assert(text::join(seq![Seq::<char>::empty()], "."@) =~= Seq::empty());
        assert(Seq::<char>::empty() + "."@ =~= "."@);
        assert(labels =~= Seq::empty());
    } else {
        assert(valid_labels(backward)) by {
            assert forall|i: int| 0 <= i < backward.len() implies {
                &&& 1 <= #[trigger] backward[i].len() <= 255
                &&& forall|j: int|
                    0 <= j < backward[i].len() ==> label_char(#[trigger] backward[i][j]) && lower(
                        backward[i][j],
                    ) == backward[i][j]
            } by {
                assert(backward[i] == labels[labels.len() - 1 - i]);
            }
        }
        lemma_labels_lack_dots(backward);
        text::lemma_join_first(backward, "."@);
        assert(backward[0].len() >= 1);
        assert(label_char(backward[0][0]));
        assert(!"."@.is_prefix_of(joined)) by {
            assert(joined.subrange(0, 1)[0] == joined[0]);
        }
        assert(text::trim_start(joined, "."@) == joined);
        assert("."@ =~= seq!['.']);
        text::lemma_split_join(backward, '.', "."@);
        assert(backward.reverse() =~= labels);
        lemma_name_round_trip(labels);
    }
}

/// Parsing a name, writing it and parsing it again gives the same name: the written form is a
/// normal form.
pub proof fn lemma_parse_is_idempotent(name: Seq<char>)
    ensures
        parsed_name(name) matches Ok(labels) ==> parsed_name(name_text(labels)) == Ok::<
            Seq<Seq<char>>,
            FqdnError,
        >(labels),
{
    lemma_parsed_is_valid(name);
    if let Ok(labels) = parsed_name(name) {
        lemma_name_round_trip(labels);
    }
}

/// A domain turned into prefix order and back is the same domain, and the other way round.
pub proof fn lemma_order_conversions_inverse(domain: Domain, other: PrefixOrderDomain)
    ensures
        ({
            let there = <PrefixOrderDomain as vstd::std_specs::convert::FromSpec<Domain>>::from_spec(
                domain,
            );
            <Domain as vstd::std_specs::convert::FromSpec<PrefixOrderDomain>>::from_spec(there)
                == domain
        }),
        ({
            let there = <Domain as vstd::std_specs::convert::FromSpec<PrefixOrderDomain>>::from_spec(
                other,
            );
            <PrefixOrderDomain as vstd::std_specs::convert::FromSpec<Domain>>::from_spec(there)
                == other
        }),
{
}

pub(crate) proof fn lemma_wire_append(a: Seq<Seq<char>>, b: Seq<Seq<char>>)
    ensures
        wire(a + b) == wire(a) + wire(b),
    decreases b.len(),
{
    if b.len() > 0 {
        assert((a + b).drop_last() =~= a + b.drop_last());
        lemma_wire_append(a, b.drop_last());
        assert(wire(a + b) =~= wire(a) + wire(b));
    } else {
        assert(a + b =~= a);
        assert(wire(a) + wire(b) =~= wire(a));
    }
}

pub(crate) proof fn lemma_wire_first(labels: Seq<Seq<char>>)
    requires
        valid_labels(labels),
        labels.len() > 0,
    ensures
        valid_labels(labels.drop_first()),
        wire(labels) == seq![labels[0].len() as u8] + vstd::utf8::encode_utf8(labels[0]) + wire(
            labels.drop_first(),
        ),
        vstd::utf8::encode_utf8(labels[0]).len() == labels[0].len(),
        forall|j: int|
            0 <= j < labels[0].len() ==> #[trigger] vstd::utf8::encode_utf8(labels[0])[j]
                == labels[0][j] as u8,
{
    let first = seq![labels[0]];
    let rest = labels.drop_first();
    assert(labels =~= first + rest);
    lemma_wire_append(first, rest);
    assert(first.drop_last() =~= Seq::empty());
    assert(wire(first.drop_last()) =~= Seq::empty());
    assert(wire(first) =~= seq![labels[0].len() as u8] + vstd::utf8::encode_utf8(labels[0]));
    let label = labels[0];
    assert(1 <= labels[0].len() <= 255);
    assert(vstd::utf8::is_ascii_chars(label)) by {
        assert forall|j: int| 0 <= j < label.len() implies '\0' <= #[trigger] label[j]
            <= '\u{7f}' by {
            assert(label_char(labels[0][j]));
        }
    }
    vstd::utf8::is_ascii_chars_encode_utf8(label);
    assert forall|i: int| 0 <= i < rest.len() implies {
        &&& 1 <= #[trigger] rest[i].len() <= 255
        &&& forall|j: int|
            0 <= j < rest[i].len() ==> label_char(#[trigger] rest[i][j]) && lower(rest[i][j])
                == rest[i][j]
    } by {
        assert(rest[i] == labels[i + 1]);
        assert(1 <= labels[i + 1].len() <= 255);
    }
}

/// Different names are sent differently.
pub proof fn lemma_wire_injective(a: Seq<Seq<char>>, b: Seq<Seq<char>>)
    requires
        valid_labels(a),
        valid_labels(b),
        wire(a) == wire(b),
    ensures
        a == b,
    decreases a.len(),
{
    if a.len() == 0 {
        if b.len() > 0 {
            lemma_wire_first(b);
            assert(wire(b).len() > 0);
        }
        assert(a =~= b);
    } else if b.len() == 0 {
        lemma_wire_first(a);
        assert(wire(a).len() > 0);
    } else {
        lemma_wire_first(a);
        lemma_wire_first(b);
        let n = a[0].len() as int;
        assert(1 <= a[0].len() <= 255);
        assert(1 <= b[0].len() <= 255);
        let w = wire(a);
        assert(w[0] == a[0].len() as u8);
        assert(w[0] == b[0].len() as u8);
        assert(a[0].len() == b[0].len());
        assert forall|j: int| 0 <= j < n implies a[0][j] == b[0][j] by {
            assert(w[1 + j] == vstd::utf8::encode_utf8(a[0])[j]);
            assert(w[1 + j] == vstd::utf8::encode_utf8(b[0])[j]);
            assert(label_char(a[0][j]));
            assert(label_char(b[0][j]));
        }
        assert(a[0] =~= b[0]);
        assert(wire(a.drop_first()) =~= w.subrange(1 + n, w.len() as int));
        assert(wire(b.drop_first()) =~= w.subrange(1 + n, w.len() as int));
        lemma_wire_injective(a.drop_first(), b.drop_first());
        assert(a =~= seq![a[0]] + a.drop_first());
        assert(b =~= seq![b[0]] + b.drop_first());
    }
}

/// Names compare as equal exactly when they are equal, and swapping them turns the order round.
pub proof fn lemma_name_order_total(a: Seq<Seq<char>>, b: Seq<Seq<char>>)
    requires
        valid_labels(a),
        valid_labels(b),
    ensures
        name_order(a, b) == std::cmp::Ordering::Equal <==> a == b,
        name_order(a, b) == std::cmp::Ordering::Less <==> name_order(b, a)
            == std::cmp::Ordering::Greater,
{
    octets::lemma_lex_total(wire(a), wire(b));
    if wire(a) == wire(b) {
        lemma_wire_injective(a, b);
    }
}

/// The order of names is transitive.
pub proof fn lemma_name_order_transitive(
    a: Seq<Seq<char>>,
    b: Seq<Seq<char>>,
    c: Seq<Seq<char>>,
)
    requires
        name_order(a, b) == std::cmp::Ordering::Less,
        name_order(b, c) == std::cmp::Ordering::Less,
    ensures
        name_order(a, c) == std::cmp::Ordering::Less,
{
    octets::lemma_lex_transitive(wire(a), wire(b), wire(c));
}

} // verus!

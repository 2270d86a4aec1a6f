//! The redaction pipeline: pattern passes, the vocabulary classifier and the
//! overlay merge of its output.
use vstd::prelude::*;
use vstd::string::StringExecFns;
use crate::error::Error;
use crate::mask::{covered, MASK};
use crate::pattern::{mask_pass, match_spans, pattern_compiles, regex_censor, Matcher};
use crate::text::{byte_offset, chars_of, string_of};

verus! {

/// Links with an http or https scheme.
pub const LINK_PATTERN: &'static str = r#"https?:\/\/(www\.)?[-a-zA-Z0-9@:%._\+~#=]{1,256}\.[a-zA-Z0-9()]{1,6}\b([-a-zA-Z0-9()!@:%_\+.~#?&\/\/=]*)"#;

/// Dotted-quad IPv4 addresses.
pub const IP_PATTERN: &'static str = r#"(\b25[0-5]|\b2[0-4][0-9]|\b[01]?[0-9][0-9]?)(\.(25[0-5]|2[0-4][0-9]|[01]?[0-9][0-9]?)){3}"#;

/// Email addresses.
pub const EMAIL_PATTERN: &'static str = r#"[^@ \t\r\n]+@[^@ \t\r\n]+\.[^@ \t\r\n]+"#;

/// The matchers that can be requested besides the vocabulary, in the order
/// in which their passes run.
#[derive(Debug, Clone, Copy, PartialEq, Eq, Structural, PartialOrd, Ord)]
pub enum CensorTypes {
    /// E.g. <https://example.net>
    Link,
    /// E.g. 127.0.0.1
    IP,
    /// E.g. example@example.net
    Email,
    /// A pattern given by the caller, e.g. (\w+)
    Custom,
}

/// The fixed pattern of a built-in matcher.
pub open spec fn builtin_pattern(kind: CensorTypes) -> Seq<char> {
    match kind {
        CensorTypes::Link => LINK_PATTERN@,
        CensorTypes::IP => IP_PATTERN@,
        CensorTypes::Email => EMAIL_PATTERN@,
        CensorTypes::Custom => Seq::empty(),
    }
}

/// The pattern the caller gave for the custom matcher, empty when none was given.
pub open spec fn custom_pattern(arg: Option<String>) -> Seq<char> {
    match arg {
        Some(p) => p@,
        None => Seq::empty(),
    }
}

/// The pass of `kind` over `text` if it was requested, else `text` unchanged.
pub open spec fn pass_if(
    text: Seq<char>,
    types: Seq<CensorTypes>,
    kind: CensorTypes,
    pattern: Seq<char>,
) -> Seq<char> {
    if types.contains(kind) {
        mask_pass(text, pattern)
    } else {
        text
    }
}

/// `text` after the requested pattern passes, in the order link, IP, email,
/// custom, whatever the order or repetition of `types`.
pub open spec fn masked_by_patterns(text: Seq<char>, types: Seq<CensorTypes>, custom: Seq<char>) -> Seq<char> {
    let a = pass_if(text, types, CensorTypes::Link, LINK_PATTERN@);
    let b = pass_if(a, types, CensorTypes::IP, IP_PATTERN@);
    let c = pass_if(b, types, CensorTypes::Email, EMAIL_PATTERN@);
    pass_if(c, types, CensorTypes::Custom, custom)
}

/// The custom matcher was requested without a pattern.
pub open spec fn missing_argument(types: Seq<CensorTypes>, arg: Option<String>) -> bool {
    types.contains(CensorTypes::Custom) && arg is None
}

/// The three built-in patterns compile.
pub open spec fn builtins_compile() -> bool {
    pattern_compiles(LINK_PATTERN@) && pattern_compiles(IP_PATTERN@) && pattern_compiles(EMAIL_PATTERN@)
}

/// The custom matcher was requested with a pattern that does not compile.
pub open spec fn invalid_custom(types: Seq<CensorTypes>, arg: Option<String>) -> bool {
    !missing_argument(types, arg) && types.contains(CensorTypes::Custom) && !pattern_compiles(
        custom_pattern(arg),
    )
}

/// A pattern that redaction needs does not compile: the custom one, or one
/// of the built-in ones.
pub open spec fn invalid_pattern(types: Seq<CensorTypes>, arg: Option<String>) -> bool {
    invalid_custom(types, arg) || (!missing_argument(types, arg) && !builtins_compile())
}

/// Overlay merge of the text before classification and the classifier's
/// output: a mask character where the classifier put one, the character from
/// before classification elsewhere. The walk stops at the shorter of the two.
pub open spec fn overlay(before: Seq<char>, classified: Seq<char>) -> Seq<char> {
    let n = if before.len() <= classified.len() {
        before.len()
    } else {
        classified.len()
    };
    Seq::new(
        n,
        |i: int|
            if classified[i] == MASK {
                MASK
            } else {
                before[i]
            },
    )
}

/// Whether `kind` occurs in `types`.
fn requests(types: &Vec<CensorTypes>, kind: CensorTypes) -> (r: bool)
    ensures
        r == types@.contains(kind),
{
    let mut i: usize = 0;
    while i < types.len()
        invariant
            i <= types.len(),
            forall|j: int| 0 <= j < i ==> types@[j] != kind,
        decreases types.len() - i,
    {
        if types[i] == kind {
            return true;
        }
        i = i + 1;
    }
    false
}

/// The compiled built-in matchers, built once and shared by any number of
/// redactions.
pub struct BuiltinMatchers {
    link: Matcher,
    ip: Matcher,
    email: Matcher,
}

impl BuiltinMatchers {
    #[verifier::type_invariant]
    spec fn inv(&self) -> bool {
        &&& self.link@ == LINK_PATTERN@
        &&& self.ip@ == IP_PATTERN@
        &&& self.email@ == EMAIL_PATTERN@
    }

    /// Compiles the link, IP and email patterns.
    pub fn new() -> (r: Result<BuiltinMatchers, Error>)
        ensures
            r is Ok <==> builtins_compile(),
            r matches Err(e) ==> e == Error::InvalidRegex,
    {
        let link = Matcher::compile(LINK_PATTERN)?;
        let ip = Matcher::compile(IP_PATTERN)?;
        let email = Matcher::compile(EMAIL_PATTERN)?;
        Ok(BuiltinMatchers { link, ip, email })
    }
}

/// The text after the requested pattern passes, before the vocabulary
/// classifier sees it, with the built-in matchers given. Fails before any
/// pass runs when the custom matcher is requested without a pattern or with
/// one that does not compile.
pub fn mask_patterns_with(
    builtins: &BuiltinMatchers,
    sentence: &str,
    types: &Vec<CensorTypes>,
    arg: &Option<String>,
) -> (r: Result<String, Error>)
    ensures
        (r == Err::<String, Error>(Error::NoArgs)) <==> missing_argument(types@, *arg),
        (r == Err::<String, Error>(Error::InvalidRegex)) <==> invalid_custom(types@, *arg),
        r is Ok <==> !missing_argument(types@, *arg) && !invalid_custom(types@, *arg),
        r matches Ok(s) ==> s@ == masked_by_patterns(sentence@, types@, custom_pattern(*arg)),
{
    let link = requests(types, CensorTypes::Link);
    let ip = requests(types, CensorTypes::IP);
    let email = requests(types, CensorTypes::Email);
    let custom = requests(types, CensorTypes::Custom);
    let mut custom_matcher: Option<Matcher> = None;
    if custom {
        match arg {
            None => return Err(Error::NoArgs),
            Some(p) => {
                custom_matcher = Some(Matcher::compile(p.as_str())?);
            },
        }
    }
    proof {
        use_type_invariant(builtins);
    }
    let mut buf = sentence.to_owned();
    if link {
        regex_censor(&mut buf, &builtins.link);
    }
    if ip {
        regex_censor(&mut buf, &builtins.ip);
    }
    if email {
        regex_censor(&mut buf, &builtins.email);
    }
    if let Some(m) = custom_matcher {
        regex_censor(&mut buf, &m);
    }
    Ok(buf)
}

/// Fails with `NoArgs` when the custom matcher is requested without a pattern.
fn require_argument(types: &Vec<CensorTypes>, arg: &Option<String>) -> (r: Result<(), Error>)
    ensures
        r is Err <==> missing_argument(types@, *arg),
        r matches Err(e) ==> e == Error::NoArgs,
{
    if requests(types, CensorTypes::Custom) && arg.is_none() {
        Err(Error::NoArgs)
    } else {
        Ok(())
    }
}

/// `mask_patterns_with`, with the built-in matchers compiled for this call.
pub fn mask_patterns(sentence: &str, types: &Vec<CensorTypes>, arg: &Option<String>) -> (r: Result<String, Error>)
    ensures
        (r == Err::<String, Error>(Error::NoArgs)) <==> missing_argument(types@, *arg),
        (r == Err::<String, Error>(Error::InvalidRegex)) <==> invalid_pattern(types@, *arg),
        r is Ok <==> !missing_argument(types@, *arg) && !invalid_pattern(types@, *arg),
        r matches Ok(s) ==> s@ == masked_by_patterns(sentence@, types@, custom_pattern(*arg)),
{
    require_argument(types, arg)?;
    let builtins = BuiltinMatchers::new()?;
    mask_patterns_with(&builtins, sentence, types, arg)
}

/// The outcome of one redaction: the text as given, the text as redacted,
/// and whether the two are equal.
#[derive(Debug, PartialEq, Eq)]
pub struct Censored {
    original: String,
    censored: String,
    valid: bool,
}

impl Censored {
    /// The text as given.
    pub closed spec fn spec_original(&self) -> Seq<char> {
        self.original@
    }

    /// The text as redacted.
    pub closed spec fn spec_censored(&self) -> Seq<char> {
        self.censored@
    }

    /// True when redaction changed nothing.
    pub closed spec fn spec_valid(&self) -> bool {
        self.valid
    }

    /// The flag always agrees with the two texts.
    pub closed spec fn wf(&self) -> bool {
        self.valid == (self.original@ == self.censored@)
    }

    /// Finishes a redaction from the original text, the text after the
    /// pattern passes, and what the classifier made of the latter.
    pub fn reconcile(original: String, masked: String, classified: String) -> (r: Censored)
        ensures
            r.wf(),
            r.spec_original() == original@,
            r.spec_censored() == overlay(masked@, classified@),
            r.spec_valid() == (original@ == overlay(masked@, classified@)),
    {
        let censored = fix_sentence(masked, classified);
        let valid = original == censored;
        Censored { original, censored, valid }
    }

    /// The text as given.
    pub fn original(&self) -> (r: String)
        ensures
            r@ == self.spec_original(),
    {
        self.original.clone()
    }

    /// The text as redacted.
    pub fn censored(&self) -> (r: String)
        ensures
            r@ == self.spec_censored(),
    {
        self.censored.clone()
    }

    /// True when redaction changed nothing.
    pub fn valid(&self) -> (r: bool)
        ensures
            r == self.spec_valid(),
    {
        self.valid
    }

    /// True when redaction changed the text.
    pub fn changed(&self) -> (r: bool)
        ensures
            r == (self.spec_censored() != self.spec_original()),
    {
        !(self.original == self.censored)
    }
}

/// Text form of a redaction result, as `debug_str` writes it.
pub open spec fn debug_text(original: Seq<char>, censored: Seq<char>, valid: bool) -> Seq<char> {
    "Censored { original: "@ + original + ", censored: "@ + censored + ", valid: "@ + (if valid {
        "true"@
    } else {
        "false"@
    }) + " }"@
}

/// Types that describe themselves as text.
pub trait Printable {
    fn debug_str(&self) -> String;
}

impl Printable for Censored {
    fn debug_str(&self) -> String {
        self.describe()
    }
}

impl Censored {
    /// The result as text: its three fields in order.
    pub fn describe(&self) -> (r: String)
        ensures
            r@ == debug_text(self.spec_original(), self.spec_censored(), self.spec_valid()),
    {
        let mut s = String::from_str("Censored { original: ");
        s.append(self.original.as_str());
        s.append(", censored: ");
        s.append(self.censored.as_str());
        s.append(", valid: ");
        if self.valid {
            s.append("true");
        } else {
            s.append("false");
        }
        s.append(" }");
        s
    }
}

/// Overlay merge: walks `original` (the text before classification) and
/// `censored` (the classifier's output) character by character, keeping the
/// mask character where the classifier put one and the original character
/// elsewhere. Characters past the end of the shorter text are dropped.
pub fn fix_sentence(original: String, censored: String) -> (r: String)
    ensures
        r@ == overlay(original@, censored@),
{
    let before = chars_of(original.as_str());
    let after = chars_of(censored.as_str());
    let n = if before.len() <= after.len() {
        before.len()
    } else {
        after.len()
    };
    let mut out: Vec<char> = Vec::new();
    let mut i: usize = 0;
    while i < n
        invariant
            n <= before.len(),
            n <= after.len(),
            n == overlay(before@, after@).len(),
            i <= n,
            out@ =~= overlay(before@, after@).subrange(0, i as int),
        decreases n - i,
    {
        if after[i] == MASK {
            out.push(MASK);
        } else {
            out.push(before[i]);
        }
        i = i + 1;
    }
    assert(overlay(before@, after@).subrange(0, n as int) =~= overlay(before@, after@));
    string_of(&out)
}

/// Relies on rustrict's `CensorStr::censor` for `&str`: it runs the
/// process-wide vocabulary over `text` and returns it with profane spans
/// replaced by '*'. The result depends on what the dictionary holds at the
/// time of the call, so nothing is stated of it.
#[verifier::external_body]
fn classify(text: &str) -> (r: String) {
    rustrict::CensorStr::censor(text)
}

/// The pipeline of `censor_with`, on the requested kinds as a vector.
fn censor_kinds(
    builtins: &BuiltinMatchers,
    sentence: String,
    types: Vec<CensorTypes>,
    arg: Option<String>,
) -> (r: Result<Censored, Error>)
    ensures
        (r == Err::<Censored, Error>(Error::NoArgs)) <==> missing_argument(types@, arg),
        (r == Err::<Censored, Error>(Error::InvalidRegex)) <==> invalid_custom(types@, arg),
        r is Ok <==> !missing_argument(types@, arg) && !invalid_custom(types@, arg),
        r matches Ok(c) ==> {
            &&& c.wf()
            &&& c.spec_original() == sentence@
            &&& exists|classified: Seq<char>|
                c.spec_censored() == overlay(
                    masked_by_patterns(sentence@, types@, custom_pattern(arg)),
                    classified,
                )
        },
{
    let masked = mask_patterns_with(builtins, sentence.as_str(), &types, &arg)?;
    let classified = classify(masked.as_str());
    let ghost post = classified@;
    let r = Censored::reconcile(sentence, masked, classified);
    assert(r.spec_censored() == overlay(
        masked_by_patterns(sentence@, types@, custom_pattern(arg)), post));
    Ok(r)
}

/// Redacts `sentence` with the built-in matchers given: runs the requested
/// pattern passes (each kind once, in the order link, IP, email, custom),
/// then the vocabulary classifier, and merges the classifier's output over
/// the masked text.
pub fn censor_with(
    builtins: &BuiltinMatchers,
    sentence: String,
    types: Box<[CensorTypes]>,
    arg: Option<String>,
) -> (r: Result<Censored, Error>)
    ensures
        (r == Err::<Censored, Error>(Error::NoArgs)) <==> missing_argument(types@, arg),
        (r == Err::<Censored, Error>(Error::InvalidRegex)) <==> invalid_custom(types@, arg),
        r is Ok <==> !missing_argument(types@, arg) && !invalid_custom(types@, arg),
        r matches Ok(c) ==> {
            &&& c.wf()
            &&& c.spec_original() == sentence@
            &&& exists|classified: Seq<char>|
                c.spec_censored() == overlay(
                    masked_by_patterns(sentence@, types@, custom_pattern(arg)),
                    classified,
                )
        },
{
    censor_kinds(builtins, sentence, types.into_vec(), arg)
}

/// Redacts `sentence`, compiling the built-in matchers for this call; see
/// `censor_with`. A custom matcher requested without a pattern fails with
/// `NoArgs` before anything is compiled.
pub fn censor(sentence: String, types: Box<[CensorTypes]>, arg: Option<String>) -> (r: Result<Censored, Error>)
    ensures
        (r == Err::<Censored, Error>(Error::NoArgs)) <==> missing_argument(types@, arg),
        (r == Err::<Censored, Error>(Error::InvalidRegex)) <==> invalid_pattern(types@, arg),
        r is Ok <==> !missing_argument(types@, arg) && !invalid_pattern(types@, arg),
        r matches Ok(c) ==> {
            &&& c.wf()
            &&& c.spec_original() == sentence@
            &&& exists|classified: Seq<char>|
                c.spec_censored() == overlay(
                    masked_by_patterns(sentence@, types@, custom_pattern(arg)),
                    classified,
                )
        },
{
    let kinds = types.into_vec();
    require_argument(&kinds, &arg)?;
    let builtins = BuiltinMatchers::new()?;
    censor_kinds(&builtins, sentence, kinds, arg)
}

/// The pattern phase depends only on which kinds are requested, not on their
/// order or repetition.
pub proof fn lemma_order_independent(text: Seq<char>, t1: Seq<CensorTypes>, t2: Seq<CensorTypes>, custom: Seq<char>)
    requires
        forall|k: CensorTypes| t1.contains(k) <==> t2.contains(k),
    ensures
        masked_by_patterns(text, t1, custom) == masked_by_patterns(text, t2, custom),
{
    assert(t1.contains(CensorTypes::Link) == t2.contains(CensorTypes::Link));
    assert(t1.contains(CensorTypes::IP) == t2.contains(CensorTypes::IP));
    assert(t1.contains(CensorTypes::Email) == t2.contains(CensorTypes::Email));
    assert(t1.contains(CensorTypes::Custom) == t2.contains(CensorTypes::Custom));
}

/// With a single built-in kind requested, the pattern phase masks exactly the
/// characters that lie in a match of that kind's pattern, each with one mask
/// character, and keeps every other character and the length.
pub proof fn lemma_single_builtin_pass(text: Seq<char>, kind: CensorTypes, custom: Seq<char>)
    requires
        kind != CensorTypes::Custom,
    ensures
        ({
            let out = masked_by_patterns(text, seq![kind], custom);
            &&& out == mask_pass(text, builtin_pattern(kind))
            &&& out.len() == text.len()
            &&& forall|i: int|
                0 <= i < text.len() ==> #[trigger] out[i] == (if covered(
                    match_spans(builtin_pattern(kind), text),
                    byte_offset(text, i) as int,
                ) {
                    MASK
                } else {
                    text[i]
                })
        }),
{
    let t = seq![kind];
    assert(t[0] == kind);
    assert forall|k: CensorTypes| t.contains(k) <==> k == kind by {
        if t.contains(k) {
            let j = choose|j: int| 0 <= j < t.len() && t[j] == k;
            assert(j == 0);
        }
    }
}

/// The custom matcher requested without a pattern always fails with `NoArgs`,
/// whatever else is requested.
pub proof fn lemma_custom_needs_pattern(types: Seq<CensorTypes>)
    requires
        types.contains(CensorTypes::Custom),
    ensures
        missing_argument(types, None),
        !invalid_pattern(types, None),
{
}

/// A custom pattern that does not compile always fails with `InvalidRegex`.
pub proof fn lemma_custom_invalid_pattern(types: Seq<CensorTypes>, pattern: String)
    requires
        types.contains(CensorTypes::Custom),
        !pattern_compiles(pattern@),
    ensures
        invalid_pattern(types, Some(pattern)),
        !missing_argument(types, Some(pattern)),
{
}

/// When the classifier keeps the layout of its input, the merge keeps the
/// length, masks every position the classifier masked, and restores the
/// text before classification at every other position.
pub proof fn lemma_overlay_same_layout(before: Seq<char>, classified: Seq<char>)
    requires
        before.len() == classified.len(),
    ensures
        overlay(before, classified).len() == before.len(),
        forall|i: int|
            0 <= i < before.len() ==> #[trigger] overlay(before, classified)[i] == if classified[i]
                == MASK {
                MASK
            } else {
                before[i]
            },
{
}

/// Merging again with a classifier output that masks nothing new changes
/// nothing: a text whose masks already cover every position the classifier
/// masks is its own overlay.
pub proof fn lemma_overlay_stable(text: Seq<char>, classified: Seq<char>)
    requires
        text.len() == classified.len(),
        forall|i: int| 0 <= i < text.len() && classified[i] == MASK ==> #[trigger] text[i] == MASK,
    ensures
        overlay(text, classified) == text,
{
    assert(overlay(text, classified) =~= text);
}

/// A redaction result reports a change exactly when the redacted text
/// differs from the original.
pub proof fn lemma_changed_iff_differs(c: Censored)
    requires
        c.wf(),
    ensures
        !c.spec_valid() <==> c.spec_censored() != c.spec_original(),
{
}

} // verus!

//! Facts, and the predicates on them that guard routes.
use vstd::prelude::*;

use crate::split::{pieces, split};
use crate::text::{cat2, cat3, char_vec, same, trim, trimmed};

verus! {

/// A letter or digit of ASCII, or an underscore.
pub open spec fn is_word_char(c: char) -> bool {
    ||| 'a' <= c <= 'z'
    ||| 'A' <= c <= 'Z'
    ||| '0' <= c <= '9'
    ||| c == '_'
}

/// Whether a segment of a fact key is a non-empty word.
pub open spec fn is_word(s: Seq<char>) -> bool {
    s.len() > 0 && forall|i: int| 0 <= i < s.len() ==> is_word_char(#[trigger] s[i])
}

/// Whether a text is a fact key: words with a dot between each two.
pub open spec fn is_fact_key(s: Seq<char>) -> bool {
    s.len() > 0 && forall|i: int|
        0 <= i < pieces(s, '.').len() ==> is_word(#[trigger] pieces(s, '.')[i])
}

fn word_char(c: char) -> (r: bool)
    ensures
        r == is_word_char(c),
{
    ('a' <= c && c <= 'z') || ('A' <= c && c <= 'Z') || ('0' <= c && c <= '9') || c == '_'
}

fn word(s: &str) -> (r: bool)
    ensures
        r == is_word(s@),
{
    let chars = char_vec(s);
    let mut i: usize = 0;
    while i < chars.len()
        invariant
            i <= chars.len(),
            chars@ == s@,
            forall|j: int| 0 <= j < i ==> is_word_char(#[trigger] s@[j]),
        decreases chars.len() - i,
    {
        if !word_char(chars[i]) {
            assert(!is_word_char(s@[i as int]));
            return false;
        }
        i += 1;
    }
    chars.len() > 0
}

fn valid_fact_key(key: &str) -> (r: bool)
    ensures
        r == is_fact_key(key@),
{
    if key.is_empty() {
        return false;
    }
    let segments = split(key, '.');
    let mut i: usize = 0;
    while i < segments.len()
        invariant
            i <= segments.len(),
            segments.deep_view() == pieces(key@, '.'),
            forall|j: int| 0 <= j < i ==> is_word(#[trigger] pieces(key@, '.')[j]),
        decreases segments.len() - i,
    {
        assert(pieces(key@, '.')[i as int] == segments@[i as int]@);
        if !word(segments[i].as_str()) {
            return false;
        }
        i += 1;
    }
    true
}

/// The key of an artifact or of a board value.
#[derive(Debug, PartialEq, Eq)]
pub struct FactKey(String);

impl DeepView for FactKey {
    type V = Seq<char>;

    closed spec fn deep_view(&self) -> Seq<char> {
        self.0@
    }
}

impl Clone for FactKey {
    fn clone(&self) -> (r: Self)
        ensures
            r.deep_view() == self.deep_view(),
    {
        proof {
            use_type_invariant(self);
        }
        FactKey(self.0.clone())
    }
}

impl FactKey {
    #[verifier::type_invariant]
    spec fn valid(self) -> bool {
        is_fact_key(self.0@)
    }

    /// A key, where the text is one.
    pub fn new(value: String) -> (r: Result<Self, FactError>)
        ensures
            r is Ok <==> is_fact_key(value@),
            r matches Ok(key) ==> key.deep_view() == value@,
            r matches Err(error) ==> error.deep_view() == "fact key is invalid"@,
    {
        if valid_fact_key(value.as_str()) {
            Ok(FactKey(value))
        } else {
            Err(FactError::new("fact key is invalid"))
        }
    }

    pub fn as_str(&self) -> (r: &str)
        ensures
            r@ == self.deep_view(),
            is_fact_key(self.deep_view()),
    {
        proof {
            use_type_invariant(self);
        }
        self.0.as_str()
    }

    /// The text of the key.
    pub fn to_text(&self) -> (r: String)
        ensures
            r@ == self.deep_view(),
    {
        self.0.clone()
    }
}

/// Why a fact could not be named.
#[derive(Debug, PartialEq, Eq)]
pub struct FactError {
    message: String,
}

impl DeepView for FactError {
    type V = Seq<char>;

    closed spec fn deep_view(&self) -> Seq<char> {
        self.message@
    }
}

impl FactError {
    fn new(message: &str) -> (r: Self)
        ensures
            r.deep_view() == message@,
    {
        FactError { message: message.to_string() }
    }

    pub fn message(&self) -> (r: &str)
        ensures
            r@ == self.deep_view(),
    {
        self.message.as_str()
    }
}

/// A fact that a route can wait for.
#[derive(Debug, PartialEq, Eq)]
pub enum FactRef {
    Artifact { key: FactKey },
    Board { key: FactKey },
}

#[verifier::ext_equal]
pub enum FactView {
    Artifact { key: Seq<char> },
    Board { key: Seq<char> },
}

impl FactView {
    pub open spec fn key(self) -> Seq<char> {
        match self {
            FactView::Artifact { key } => key,
            FactView::Board { key } => key,
        }
    }

    pub open spec fn kind(self) -> Seq<char> {
        match self {
            FactView::Artifact { .. } => "artifact"@,
            FactView::Board { .. } => "board"@,
        }
    }

    /// How the fact is written.
    pub open spec fn text(self) -> Seq<char> {
        self.kind() + "."@ + self.key()
    }
}

impl DeepView for FactRef {
    type V = FactView;

    open spec fn deep_view(&self) -> FactView {
        match self {
            FactRef::Artifact { key } => FactView::Artifact { key: key.deep_view() },
            FactRef::Board { key } => FactView::Board { key: key.deep_view() },
        }
    }
}

impl Clone for FactRef {
    fn clone(&self) -> (r: Self)
        ensures
            r.deep_view() == self.deep_view(),
    {
        match self {
            FactRef::Artifact { key } => FactRef::Artifact { key: key.clone() },
            FactRef::Board { key } => FactRef::Board { key: key.clone() },
        }
    }
}

impl FactRef {
    pub fn artifact(key: String) -> (r: Result<Self, FactError>)
        ensures
            r is Ok <==> is_fact_key(key@),
            r matches Ok(fact) ==> fact.deep_view() == (FactView::Artifact { key: key@ }),
            r matches Err(error) ==> error.deep_view() == "fact key is invalid"@,
    {
        match FactKey::new(key) {
            Ok(key) => Ok(FactRef::Artifact { key }),
            Err(error) => Err(error),
        }
    }

    pub fn board(key: String) -> (r: Result<Self, FactError>)
        ensures
            r is Ok <==> is_fact_key(key@),
            r matches Ok(fact) ==> fact.deep_view() == (FactView::Board { key: key@ }),
            r matches Err(error) ==> error.deep_view() == "fact key is invalid"@,
    {
        match FactKey::new(key) {
            Ok(key) => Ok(FactRef::Board { key }),
            Err(error) => Err(error),
        }
    }

    pub fn key(&self) -> (r: &FactKey)
        ensures
            r.deep_view() == self.deep_view().key(),
    {
        match self {
            FactRef::Artifact { key } => key,
            FactRef::Board { key } => key,
        }
    }

    pub fn kind(&self) -> (r: &'static str)
        ensures
            r@ == self.deep_view().kind(),
    {
        match self {
            FactRef::Artifact { .. } => "artifact",
            FactRef::Board { .. } => "board",
        }
    }

    /// How the fact is written.
    pub fn to_text(&self) -> (r: String)
        ensures
            r@ == self.deep_view().text(),
    {
        cat3(self.kind(), ".", self.key().as_str())
    }
}

/// An artifact, by its key.
#[derive(Debug, PartialEq, Eq)]
pub struct ArtifactRef {
    key: FactKey,
}

impl DeepView for ArtifactRef {
    type V = Seq<char>;

    closed spec fn deep_view(&self) -> Seq<char> {
        self.key.deep_view()
    }
}

impl Clone for ArtifactRef {
    fn clone(&self) -> (r: Self)
        ensures
            r.deep_view() == self.deep_view(),
    {
        ArtifactRef { key: self.key.clone() }
    }
}

impl ArtifactRef {
    pub fn new(key: String) -> (r: Result<Self, FactError>)
        ensures
            r is Ok <==> is_fact_key(key@),
            r matches Ok(artifact) ==> artifact.deep_view() == key@,
            r matches Err(error) ==> error.deep_view() == "fact key is invalid"@,
    {
        match FactKey::new(key) {
            Ok(key) => Ok(ArtifactRef { key }),
            Err(error) => Err(error),
        }
    }

    pub fn key(&self) -> (r: &FactKey)
        ensures
            r.deep_view() == self.deep_view(),
    {
        &self.key
    }

    pub fn fact_ref(&self) -> (r: FactRef)
        ensures
            r.deep_view() == (FactView::Artifact { key: self.deep_view() }),
    {
        FactRef::Artifact { key: self.key.clone() }
    }

    /// How the artifact is written.
    pub fn to_text(&self) -> (r: String)
        ensures
            r@ == "artifact."@ + self.deep_view(),
    {
        cat2("artifact.", self.key.as_str())
    }
}

/// A condition on one fact.
#[derive(Debug, PartialEq, Eq)]
pub enum FlowPredicate {
    Exists { fact: FactRef },
    Truthy { fact: FactRef },
}

#[verifier::ext_equal]
pub enum PredicateView {
    Exists { fact: FactView },
    Truthy { fact: FactView },
}

impl PredicateView {
    pub open spec fn fact(self) -> FactView {
        match self {
            PredicateView::Exists { fact } => fact,
            PredicateView::Truthy { fact } => fact,
        }
    }

    /// How the predicate is written.
    pub open spec fn text(self) -> Seq<char> {
        match self {
            PredicateView::Exists { fact } => "exists("@ + fact.text() + ")"@,
            PredicateView::Truthy { fact } => "truthy("@ + fact.text() + ")"@,
        }
    }

    /// Whether the predicate holds of the fact's value.
    pub open spec fn holds(self, value: Option<Seq<char>>) -> bool {
        match (self, value) {
            (_, None) => false,
            (PredicateView::Exists { .. }, Some(_)) => true,
            (PredicateView::Truthy { .. }, Some(text)) => is_truthy(text),
        }
    }
}

/// Whether a value counts as true: trimmed it is neither empty, `false` nor `0`.
pub open spec fn is_truthy(value: Seq<char>) -> bool {
    trimmed(value).len() > 0 && trimmed(value) != "false"@ && trimmed(value) != "0"@
}

fn truthy_value(value: &str) -> (r: bool)
    ensures
        r == is_truthy(value@),
{
    let value = trim(value);
    !value.is_empty() && !same(value, "false") && !same(value, "0")
}

impl DeepView for FlowPredicate {
    type V = PredicateView;

    open spec fn deep_view(&self) -> PredicateView {
        match self {
            FlowPredicate::Exists { fact } => PredicateView::Exists { fact: fact.deep_view() },
            FlowPredicate::Truthy { fact } => PredicateView::Truthy { fact: fact.deep_view() },
        }
    }
}

impl Clone for FlowPredicate {
    fn clone(&self) -> (r: Self)
        ensures
            r.deep_view() == self.deep_view(),
    {
        match self {
            FlowPredicate::Exists { fact } => FlowPredicate::Exists { fact: fact.clone() },
            FlowPredicate::Truthy { fact } => FlowPredicate::Truthy { fact: fact.clone() },
        }
    }
}

impl FlowPredicate {
    pub fn exists_fact(fact: FactRef) -> (r: Self)
        ensures
            r.deep_view() == (PredicateView::Exists { fact: fact.deep_view() }),
    {
        FlowPredicate::Exists { fact }
    }

    pub fn truthy(fact: FactRef) -> (r: Self)
        ensures
            r.deep_view() == (PredicateView::Truthy { fact: fact.deep_view() }),
    {
        FlowPredicate::Truthy { fact }
    }

    pub fn exists_artifact(key: String) -> (r: Result<Self, FactError>)
        ensures
            r is Ok <==> is_fact_key(key@),
            r matches Ok(p) ==> p.deep_view() == (PredicateView::Exists {
                fact: FactView::Artifact { key: key@ },
            }),
            r matches Err(error) ==> error.deep_view() == "fact key is invalid"@,
    {
        match FactRef::artifact(key) {
            Ok(fact) => Ok(FlowPredicate::Exists { fact }),
            Err(error) => Err(error),
        }
    }

    pub fn truthy_artifact(key: String) -> (r: Result<Self, FactError>)
        ensures
            r is Ok <==> is_fact_key(key@),
            r matches Ok(p) ==> p.deep_view() == (PredicateView::Truthy {
                fact: FactView::Artifact { key: key@ },
            }),
            r matches Err(error) ==> error.deep_view() == "fact key is invalid"@,
    {
        match FactRef::artifact(key) {
            Ok(fact) => Ok(FlowPredicate::Truthy { fact }),
            Err(error) => Err(error),
        }
    }

    pub fn exists_board(key: String) -> (r: Result<Self, FactError>)
        ensures
            r is Ok <==> is_fact_key(key@),
            r matches Ok(p) ==> p.deep_view() == (PredicateView::Exists {
                fact: FactView::Board { key: key@ },
            }),
            r matches Err(error) ==> error.deep_view() == "fact key is invalid"@,
    {
        match FactRef::board(key) {
            Ok(fact) => Ok(FlowPredicate::Exists { fact }),
            Err(error) => Err(error),
        }
    }

    pub fn truthy_board(key: String) -> (r: Result<Self, FactError>)
        ensures
            r is Ok <==> is_fact_key(key@),
            r matches Ok(p) ==> p.deep_view() == (PredicateView::Truthy {
                fact: FactView::Board { key: key@ },
            }),
            r matches Err(error) ==> error.deep_view() == "fact key is invalid"@,
    {
        match FactRef::board(key) {
            Ok(fact) => Ok(FlowPredicate::Truthy { fact }),
            Err(error) => Err(error),
        }
    }

    pub fn fact_ref(&self) -> (r: &FactRef)
        ensures
            r.deep_view() == self.deep_view().fact(),
    {
        match self {
            FlowPredicate::Exists { fact } => fact,
            FlowPredicate::Truthy { fact } => fact,
        }
    }

    /// Whether the predicate holds of the value of its fact.
    pub fn matches(&self, value: Option<&str>) -> (r: bool)
        ensures
            r == self.deep_view().holds(value.deep_view()),
    {
        match (self, value) {
            (_, None) => false,
            (FlowPredicate::Exists { .. }, Some(_)) => true,
            (FlowPredicate::Truthy { .. }, Some(text)) => truthy_value(text),
        }
    }

    /// How the predicate is written.
    pub fn to_text(&self) -> (r: String)
        ensures
            r@ == self.deep_view().text(),
    {
        let fact = self.fact_ref().to_text();
        match self {
            FlowPredicate::Exists { .. } => cat3("exists(", fact.as_str(), ")"),
            FlowPredicate::Truthy { .. } => cat3("truthy(", fact.as_str(), ")"),
        }
    }
}

/// What is truthy also exists.
pub proof fn lemma_truthy_implies_exists(fact: FactView, value: Option<Seq<char>>)
    ensures
        (PredicateView::Truthy { fact }).holds(value) ==> (PredicateView::Exists { fact }).holds(
            value,
        ),
{
}

} // verus!

//! Requests that fail, and what is reported of them.
use vstd::prelude::*;

use crate::flow::export::{order_fields, ordered};
use crate::json::{
    field, fields_of, items_field, no_fields, option_text, with_field, without_field, Fields, Json,
    JsonView,
};
use crate::text::same;

verus! {

broadcast use vstd::string::group_string_axioms;

/// Why a request failed.
#[derive(Debug)]
pub struct DriverFailure {
    pub code: &'static str,
    pub message: String,
    pub extra: Json,
}

#[verifier::ext_equal]
pub struct FailureView {
    pub code: Seq<char>,
    pub message: Seq<char>,
    pub extra: JsonView,
}

impl DeepView for DriverFailure {
    type V = FailureView;

    open spec fn deep_view(&self) -> FailureView {
        FailureView { code: self.code@, message: self.message@, extra: self.extra@ }
    }
}

impl Clone for DriverFailure {
    fn clone(&self) -> (r: Self)
        ensures
            r.deep_view() == self.deep_view(),
    {
        DriverFailure {
            code: self.code,
            message: self.message.clone(),
            extra: self.extra.clone(),
        }
    }
}

/// The model of a result.
pub open spec fn result_of<T: DeepView>(r: Result<T, DriverFailure>) -> Result<T::V, FailureView> {
    match r {
        Ok(value) => Ok(value.deep_view()),
        Err(failure) => Err(failure.deep_view()),
    }
}

/// Whether two values are equal, with the fields of objects in any order.
pub open spec fn alike(a: JsonView, b: JsonView) -> bool {
    ordered(a) == ordered(b)
}

fn same_json(a: &Json, b: &Json) -> (r: bool)
    ensures
        r == (a@ == b@),
    decreases a,
{
    match (a, b) {
        (Json::Null, Json::Null) => true,
        (Json::Bool(x), Json::Bool(y)) => *x == *y,
        (Json::Unsigned(x), Json::Unsigned(y)) => *x == *y,
        (Json::Negative(x), Json::Negative(y)) => *x == *y,
        (Json::Real(x), Json::Real(y)) => same(x.as_str(), y.as_str()),
        (Json::Text(x), Json::Text(y)) => same(x.as_str(), y.as_str()),
        (Json::List(x), Json::List(y)) => {
            let ghost left = a@->List_0;
            let ghost right = b@->List_0;
            if x.len() != y.len() {
                assert(left.len() != right.len());
                return false;
            }
            let mut i: usize = 0;
            while i < x.len()
                invariant
                    i <= x.len(),
                    x.len() == y.len(),
                    a@ == JsonView::List(left),
                    b@ == JsonView::List(right),
                    left.len() == x.len(),
                    right.len() == y.len(),
                    a matches Json::List(inner) && inner == x,
                    forall|j: int| 0 <= j < x.len() ==> #[trigger] left[j] == x@[j]@,
                    forall|j: int| 0 <= j < y.len() ==> #[trigger] right[j] == y@[j]@,
                    forall|j: int| 0 <= j < i ==> left[j] == right[j],
                decreases x.len() - i,
            {
                assert(decreases_to!(a => x@[i as int]));
                if !same_json(&x[i], &y[i]) {
                    assert(left[i as int] != right[i as int]);
                    return false;
                }
                i += 1;
            }
            assert(left =~= right);
            true
        },
        (Json::Record(x), Json::Record(y)) => {
            let ghost left = a@->Record_0;
            let ghost right = b@->Record_0;
            if x.len() != y.len() {
                assert(left.len() != right.len());
                return false;
            }
            let mut i: usize = 0;
            while i < x.len()
                invariant
                    i <= x.len(),
                    x.len() == y.len(),
                    a@ == JsonView::Record(left),
                    b@ == JsonView::Record(right),
                    left.len() == x.len(),
                    right.len() == y.len(),
                    a matches Json::Record(inner) && inner == x,
                    forall|j: int|
                        0 <= j < x.len() ==> #[trigger] left[j] == (x@[j].0@, x@[j].1@),
                    forall|j: int|
                        0 <= j < y.len() ==> #[trigger] right[j] == (y@[j].0@, y@[j].1@),
                    forall|j: int| 0 <= j < i ==> left[j] == right[j],
                decreases x.len() - i,
            {
                assert(decreases_to!(a => x@[i as int].1));
                if !same(x[i].0.as_str(), y[i].0.as_str()) || !same_json(&x[i].1, &y[i].1) {
                    assert(left[i as int] != right[i as int]);
                    return false;
                }
                i += 1;
            }
            assert(left =~= right);
            true
        },
        _ => false,
    }
}

pub fn json_alike(a: &Json, b: &Json) -> (r: bool)
    ensures
        r == alike(a@, b@),
{
    same_json(&order_fields(a), &order_fields(b))
}

/// Whether a value is among others.
pub open spec fn among(items: Seq<JsonView>, item: JsonView) -> bool {
    exists|i: int| 0 <= i < items.len() && alike(#[trigger] items[i], item)
}

pub fn is_among(items: &Vec<Json>, item: &Json) -> (r: bool)
    ensures
        r == among(items.deep_view(), item@),
{
    let mut i: usize = 0;
    while i < items.len()
        invariant
            i <= items.len(),
            forall|j: int| 0 <= j < i ==> !alike(#[trigger] items.deep_view()[j], item@),
        decreases items.len() - i,
    {
        assert(items.deep_view()[i as int] == items@[i as int]@);
        if json_alike(&items[i], item) {
            return true;
        }
        i += 1;
    }
    false
}

/// Values with others behind them, each once.
pub open spec fn united(items: Seq<JsonView>, more: Seq<JsonView>) -> Seq<JsonView>
    decreases more.len(),
{
    if more.len() == 0 {
        items
    } else {
        let front = united(items, more.drop_last());
        if among(front, more.last()) {
            front
        } else {
            front.push(more.last())
        }
    }
}

fn unite(items: Vec<Json>, more: Vec<Json>) -> (r: Vec<Json>)
    ensures
        r.deep_view() == united(items.deep_view(), more.deep_view()),
{
    let mut out = items;
    let ghost model = more.deep_view();
    assert(model.take(0) =~= Seq::<JsonView>::empty());
    for item in it: more
        invariant
            it.seq() == more@,
            model == more.deep_view(),
            out.deep_view() == united(items.deep_view(), model.take(it.index() as int)),
    {
        let ghost i = it.index() as int;
        assert(model.take(i + 1).drop_last() =~= model.take(i));
        assert(model.take(i + 1).last() == item@);
        if !is_among(&out, &item) {
            let ghost before = out.deep_view();
            out.push(item);
            assert(out.deep_view() =~= before.push(item@));
        }
    }
    assert(model.take(model.len() as int) =~= model);
    out
}

/// An object with the fields of another one set.
pub open spec fn with_fields(value: JsonView, more: Seq<(Seq<char>, JsonView)>) -> JsonView
    decreases more.len(),
{
    if more.len() == 0 {
        value
    } else {
        with_field(with_fields(value, more.drop_last()), more.last().0, more.last().1)
    }
}

fn set_fields(value: Json, more: &Json) -> (r: Json)
    ensures
        r@ == with_fields(value@, fields_of(more@)),
{
    let mut out = value;
    match more {
        Json::Record(fields) => {
            let ghost model = fields_of(more@);
            let mut i: usize = 0;
            assert(model.take(0) =~= no_fields());
            while i < fields.len()
                invariant
                    i <= fields.len(),
                    model.len() == fields.len(),
                    forall|j: int|
                        0 <= j < fields.len() ==> #[trigger] model[j] == (
                            fields@[j].0@,
                            fields@[j].1@,
                        ),
                    out@ == with_fields(value@, model.take(i as int)),
                decreases fields.len() - i,
            {
                assert(model.take(i + 1).drop_last() =~= model.take(i as int));
                assert(model.take(i + 1).last() == model[i as int]);
                out = out.with(fields[i].0.as_str(), fields[i].1.clone());
                i += 1;
            }
            assert(model.take(i as int) =~= model);
        },
        _ => {},
    }
    out
}

impl FailureView {
    pub open spec fn plain(code: Seq<char>, message: Seq<char>) -> FailureView {
        FailureView { code, message, extra: JsonView::Null }
    }

    /// The answer to a request that failed.
    pub open spec fn response(self, id: JsonView) -> JsonView {
        JsonView::Record(
            no_fields()
                .push(("id"@, id))
                .push(("ok"@, JsonView::Bool(false)))
                .push(("error"@, with_fields(
                    JsonView::Record(
                        no_fields()
                            .push(("code"@, JsonView::Text(self.code)))
                            .push(("message"@, JsonView::Text(self.message))),
                    ),
                    fields_of(self.extra),
                ))),
        )
    }

    /// What is told of a pane that could not be ended.
    pub open spec fn cleanup(self, activation_id: Option<Seq<char>>) -> JsonView {
        JsonView::Record(
            no_fields()
                .push(("activation_id"@, option_text(activation_id)))
                .push(("code"@, JsonView::Text(self.code)))
                .push(("message"@, JsonView::Text(self.message)))
                .push(("details"@, self.extra)),
        )
    }

    /// The panes that are left over.
    pub open spec fn left_panes(self) -> Seq<JsonView> {
        match field(self.extra, "tmux_cleanup"@) {
            None => Seq::empty(),
            Some(cleanup) => match items_field(cleanup, "panes"@) {
                None => Seq::empty(),
                Some(panes) => panes,
            },
        }
    }

    /// The failure with panes added to those that are left over.
    pub open spec fn leaving(self, panes: Seq<JsonView>) -> FailureView {
        if panes.len() == 0 {
            self
        } else {
            FailureView {
                extra: with_field(
                    self.extra,
                    "tmux_cleanup"@,
                    JsonView::Record(
                        no_fields()
                            .push(("panes"@, JsonView::List(united(self.left_panes(), panes)))),
                    ),
                ),
                ..self
            }
        }
    }

    /// The failure with panes in place of those that are left over.
    pub open spec fn leaving_only(self, panes: Seq<JsonView>) -> FailureView {
        (FailureView { extra: without_field(self.extra, "tmux_cleanup"@), ..self }).leaving(panes)
    }

    /// The panes that are gone, though this could not be written down.
    pub open spec fn gone_panes(self) -> Seq<JsonView> {
        match items_field(self.extra, "tmux_release_outcomes"@) {
            None => Seq::empty(),
            Some(outcomes) => outcomes,
        }
    }

    /// The failure with one more pane that is gone, though this could not be written down.
    pub open spec fn losing(self, pane: JsonView) -> FailureView {
        FailureView {
            extra: with_field(
                self.extra,
                "tmux_release_outcomes"@,
                JsonView::List(
                    united(self.gone_panes(), Seq::<JsonView>::empty().push(gone(pane))),
                ),
            ),
            ..self
        }
    }

    /// The failure with every pane that reports tell of.
    pub open spec fn losing_all(self, outcomes: Seq<JsonView>) -> FailureView
        decreases outcomes.len(),
    {
        if outcomes.len() == 0 {
            self
        } else {
            let front = self.losing_all(outcomes.drop_last());
            match field(outcomes.last(), "pane"@) {
                Some(pane) => front.losing(pane),
                None => front,
            }
        }
    }
}

/// What is told of a pane that is gone, though this could not be written down.
pub open spec fn gone(pane: JsonView) -> JsonView {
    JsonView::Record(
        no_fields()
            .push(("pane"@, pane))
            .push(("physical_release"@, JsonView::Text("complete"@)))
            .push(("ownership_persistence"@, JsonView::Text("failed"@))),
    )
}

impl DriverFailure {
    pub fn new(code: &'static str, message: &str) -> (r: Self)
        ensures
            r.deep_view() == FailureView::plain(code@, message@),
    {
        DriverFailure { code, message: message.to_string(), extra: Json::Null }
    }

    /// A failure with a message that was put together.
    pub fn told(code: &'static str, message: String) -> (r: Self)
        ensures
            r.deep_view() == FailureView::plain(code@, message@),
    {
        DriverFailure { code, message, extra: Json::Null }
    }

    pub fn with_extra(self, extra: Json) -> (r: Self)
        ensures
            r.deep_view() == (FailureView { extra: extra@, ..self.deep_view() }),
    {
        DriverFailure { code: self.code, message: self.message, extra }
    }

    pub fn to_response(&self, id: Json) -> (r: Json)
        ensures
            r@ == self.deep_view().response(id@),
    {
        let error = Fields::new()
            .put("code", Json::text(self.code))
            .put("message", Json::text(self.message.as_str()))
            .done();
        Fields::new()
            .put("id", id)
            .put("ok", Json::Bool(false))
            .put("error", set_fields(error, &self.extra))
            .done()
    }

    pub fn to_cleanup_json(&self, activation_id: Option<&str>) -> (r: Json)
        ensures
            r@ == self.deep_view().cleanup(activation_id.deep_view()),
    {
        let activation = match activation_id {
            Some(id) => Json::text(id),
            None => Json::Null,
        };
        Fields::new()
            .put("activation_id", activation)
            .put("code", Json::text(self.code))
            .put("message", Json::text(self.message.as_str()))
            .put("details", self.extra.clone())
            .done()
    }

    pub fn tmux_cleanup_panes(&self) -> (r: Vec<Json>)
        ensures
            r.deep_view() == self.deep_view().left_panes(),
    {
        let none: Vec<Json> = Vec::new();
        assert(none.deep_view() =~= Seq::<JsonView>::empty());
        match self.extra.get("tmux_cleanup") {
            None => none,
            Some(cleanup) => match cleanup.get("panes") {
                None => none,
                Some(panes) => match panes.as_list() {
                    None => none,
                    Some(panes) => copied(panes),
                },
            },
        }
    }

    pub fn tmux_release_outcomes(&self) -> (r: Vec<Json>)
        ensures
            r.deep_view() == self.deep_view().gone_panes(),
    {
        let none: Vec<Json> = Vec::new();
        assert(none.deep_view() =~= Seq::<JsonView>::empty());
        match self.extra.get("tmux_release_outcomes") {
            None => none,
            Some(outcomes) => match outcomes.as_list() {
                None => none,
                Some(outcomes) => copied(outcomes),
            },
        }
    }

    pub fn with_tmux_cleanup(self, panes: Vec<Json>) -> (r: Self)
        ensures
            r.deep_view() == self.deep_view().leaving(panes.deep_view()),
    {
        if panes.len() == 0 {
            return self;
        }
        let merged = unite(self.tmux_cleanup_panes(), panes);
        let cleanup = Fields::new().put("panes", Json::list(merged)).done();
        DriverFailure {
            code: self.code,
            message: self.message,
            extra: self.extra.with("tmux_cleanup", cleanup),
        }
    }

    pub fn replacing_tmux_cleanup(self, panes: Vec<Json>) -> (r: Self)
        ensures
            r.deep_view() == self.deep_view().leaving_only(panes.deep_view()),
    {
        let bare = DriverFailure {
            code: self.code,
            message: self.message,
            extra: self.extra.without("tmux_cleanup"),
        };
        bare.with_tmux_cleanup(panes)
    }

    pub fn with_tmux_release_persistence_failure(self, pane: Json) -> (r: Self)
        ensures
            r.deep_view() == self.deep_view().losing(pane@),
    {
        let mut one: Vec<Json> = Vec::new();
        one.push(
            Fields::new()
                .put("pane", pane)
                .put("physical_release", Json::text("complete"))
                .put("ownership_persistence", Json::text("failed"))
                .done(),
        );
        assert(one.deep_view() =~= Seq::<JsonView>::empty().push(gone(pane@)));
        let outcomes = unite(self.tmux_release_outcomes(), one);
        DriverFailure {
            code: self.code,
            message: self.message,
            extra: self.extra.with("tmux_release_outcomes", Json::list(outcomes)),
        }
    }

    pub fn with_tmux_release_outcomes(self, outcomes: Vec<Json>) -> (r: Self)
        ensures
            r.deep_view() == self.deep_view().losing_all(outcomes.deep_view()),
    {
        let mut out = self;
        let ghost model = outcomes.deep_view();
        let mut i: usize = 0;
        assert(model.take(0) =~= Seq::<JsonView>::empty());
        while i < outcomes.len()
            invariant
                i <= outcomes.len(),
                model == outcomes.deep_view(),
                out.deep_view() == self.deep_view().losing_all(model.take(i as int)),
            decreases outcomes.len() - i,
        {
            assert(model.take(i + 1).drop_last() =~= model.take(i as int));
            assert(model.take(i + 1).last() == outcomes@[i as int]@);
            match outcomes[i].get("pane") {
                Some(pane) => {
                    out = out.with_tmux_release_persistence_failure(pane.clone());
                },
                None => {},
            }
            i += 1;
        }
        assert(model.take(i as int) =~= model);
        out
    }
}

/// A copy of a list of values.
pub fn copied(items: &Vec<Json>) -> (r: Vec<Json>)
    ensures
        r.deep_view() == items.deep_view(),
{
    let mut out: Vec<Json> = Vec::new();
    let mut i: usize = 0;
    while i < items.len()
        invariant
            i <= items.len(),
            out.len() == i,
            forall|j: int| 0 <= j < i ==> (#[trigger] out@[j])@ == items@[j]@,
        decreases items.len() - i,
    {
        out.push(items[i].clone());
        i += 1;
    }
    assert(out.deep_view() =~= items.deep_view());
    out
}

proof fn lemma_united(items: Seq<JsonView>, more: Seq<JsonView>)
    ensures
        forall|i: int|
            0 <= i < items.len() ==> among(united(items, more), #[trigger] items[i]),
        forall|i: int| 0 <= i < more.len() ==> among(united(items, more), #[trigger] more[i]),
        forall|x: JsonView| among(united(items, more.drop_last()), x) && more.len() > 0
            ==> #[trigger] among(united(items, more), x),
    decreases more.len(),
{
    let all = united(items, more);
    if more.len() > 0 {
        let rest = more.drop_last();
        lemma_united(items, rest);
        let front = united(items, rest);
        assert forall|x: JsonView| among(front, x) implies #[trigger] among(all, x) by {
            let i = choose|i: int| 0 <= i < front.len() && alike(#[trigger] front[i], x);
            assert(all[i] == front[i]);
        }
        assert forall|i: int| 0 <= i < items.len() implies among(all, #[trigger] items[i]) by {
            assert(among(front, items[i]));
        }
        assert forall|i: int| 0 <= i < more.len() implies among(all, #[trigger] more[i]) by {
            if i < rest.len() {
                assert(rest[i] == more[i]);
                assert(among(front, more[i]));
            } else if !among(front, more.last()) {
                assert(all.last() == more.last());
                assert(all[all.len() - 1] == more[i]);
            }
        }
    } else {
        assert forall|i: int| 0 <= i < items.len() implies among(all, #[trigger] items[i]) by {
            assert(alike(all[i], items[i]));
        }
    }
}

/// No pane that was reported as left over is lost when others are added.
pub proof fn lemma_left_panes_are_kept(failure: FailureView, panes: Seq<JsonView>, i: int)
    requires
        0 <= i < panes.len(),
    ensures
        among(united(failure.left_panes(), panes), panes[i]),
        forall|j: int|
            0 <= j < failure.left_panes().len() ==> among(
                united(failure.left_panes(), panes),
                #[trigger] failure.left_panes()[j],
            ),
{
    lemma_united(failure.left_panes(), panes);
}

} // verus!

//! Errors of table creation.

use vstd::prelude::*;

verus! {

/// What went wrong.
#[derive(Debug)]
pub enum DeltaError {
    /// A request that table creation refuses, with the reason in words.
    Generic(String),
    /// A file or directory that storage does not have.
    FileNotFound(String),
    /// A storage failure of another kind: missing permission, an unreachable network.
    Storage(String),
    /// A location that no URL can be made of.
    InvalidUrl(String),
    /// A protocol action that contradicts itself.
    InvalidProtocol(String),
    /// A text that does not decode as the JSON that was expected.
    MalformedJson(String),
}

/// The mathematical value of a [`DeltaError`].
pub enum ErrorView {
    Generic(Seq<char>),
    FileNotFound(Seq<char>),
    Storage(Seq<char>),
    InvalidUrl(Seq<char>),
    InvalidProtocol(Seq<char>),
    MalformedJson(Seq<char>),
}

impl View for DeltaError {
    type V = ErrorView;

    open spec fn view(&self) -> ErrorView {
        match self {
            DeltaError::Generic(s) => ErrorView::Generic(s@),
            DeltaError::FileNotFound(s) => ErrorView::FileNotFound(s@),
            DeltaError::Storage(s) => ErrorView::Storage(s@),
            DeltaError::InvalidUrl(s) => ErrorView::InvalidUrl(s@),
            DeltaError::InvalidProtocol(s) => ErrorView::InvalidProtocol(s@),
            DeltaError::MalformedJson(s) => ErrorView::MalformedJson(s@),
        }
    }
}

impl DeltaError {
    /// An error that carries only a message.
    pub fn generic(message: &str) -> (r: DeltaError)
        ensures
            r@ == ErrorView::Generic(message@),
    {
        DeltaError::Generic(message.to_owned())
    }
}

/// The result of an operation on tables.
pub type DeltaResult<T> = Result<T, DeltaError>;

/// The error of the first item that has one.
pub open spec fn first_error<A>(items: Seq<A>, flaw: spec_fn(A) -> Option<ErrorView>) -> Option<
    ErrorView,
>
    decreases items.len(),
{
    if items.len() == 0 {
        None
    } else {
        match first_error(items.drop_last(), flaw) {
            Some(e) => Some(e),
            None => flaw(items.last()),
        }
    }
}

/// An error among the first items is the error of them all.
pub proof fn lemma_first_error_in_prefix<A>(
    items: Seq<A>,
    flaw: spec_fn(A) -> Option<ErrorView>,
    n: int,
)
    requires
        0 <= n <= items.len(),
        first_error(items.take(n), flaw) is Some,
    ensures
        first_error(items, flaw) == first_error(items.take(n), flaw),
    decreases items.len() - n,
{
    if n == items.len() {
        assert(items.take(n) =~= items);
    } else {
        assert(items.take(n + 1).drop_last() =~= items.take(n));
        lemma_first_error_in_prefix(items, flaw, n + 1);
    }
}

/// One more item: an error before it stands, else its own counts.
pub proof fn lemma_first_error_step<A>(
    items: Seq<A>,
    flaw: spec_fn(A) -> Option<ErrorView>,
    n: int,
)
    requires
        0 <= n < items.len(),
        first_error(items.take(n), flaw) is None,
    ensures
        first_error(items.take(n + 1), flaw) == flaw(items[n]),
        flaw(items[n]) is Some ==> first_error(items, flaw) == flaw(items[n]),
{
    assert(items.take(n + 1).drop_last() =~= items.take(n));
    if flaw(items[n]) is Some {
        lemma_first_error_in_prefix(items, flaw, n + 1);
    }
}

/// There is no error exactly if no item has one.
pub proof fn lemma_first_error_none<A>(items: Seq<A>, flaw: spec_fn(A) -> Option<ErrorView>)
    ensures
        first_error(items, flaw) is None <==> forall|i: int|
            0 <= i < items.len() ==> flaw(#[trigger] items[i]) is None,
    decreases items.len(),
{
    if items.len() > 0 {
        let front = items.drop_last();
        lemma_first_error_none(front, flaw);
        if first_error(items, flaw) is None {
            assert forall|i: int| 0 <= i < items.len() implies flaw(#[trigger] items[i]) is None by {
                if i < front.len() {
                    assert(front[i] == items[i]);
                }
            }
        }
        if forall|i: int| 0 <= i < items.len() ==> flaw(#[trigger] items[i]) is None {
            assert forall|i: int| 0 <= i < front.len() implies flaw(#[trigger] front[i]) is None by {
                assert(front[i] == items[i]);
            }
            assert(flaw(items[items.len() - 1]) is None);
        }
    }
}

/// The first error is the error of an item before which no item has one.
pub proof fn law_first_error_is_the_first<A>(
    items: Seq<A>,
    flaw: spec_fn(A) -> Option<ErrorView>,
    e: ErrorView,
)
    ensures
        first_error(items, flaw) == Some(e) <==> exists|i: int|
            0 <= i < items.len() && flaw(#[trigger] items[i]) == Some(e) && forall|j: int|
                0 <= j < i ==> flaw(#[trigger] items[j]) is None,
        first_error(items, flaw) is None <==> forall|i: int|
            0 <= i < items.len() ==> flaw(#[trigger] items[i]) is None,
    decreases items.len(),
{
    lemma_first_error_none(items, flaw);
    if items.len() > 0 {
        let front = items.drop_last();
        let n = items.len() - 1;
        law_first_error_is_the_first(front, flaw, e);
        lemma_first_error_none(front, flaw);
        assert forall|j: int| 0 <= j < n implies front[j] == #[trigger] items[j] by {}
        if first_error(items, flaw) == Some(e) {
            if first_error(front, flaw) is Some {
                let i = choose|i: int|
                    0 <= i < front.len() && flaw(#[trigger] front[i]) == Some(e) && forall|j: int|
                        0 <= j < i ==> flaw(#[trigger] front[j]) is None;
                assert(flaw(items[i]) == Some(e));
                assert forall|j: int| 0 <= j < i implies flaw(#[trigger] items[j]) is None by {
                    assert(flaw(front[j]) is None);
                }
            } else {
                assert(flaw(items[n]) == Some(e));
                assert forall|j: int| 0 <= j < n implies flaw(#[trigger] items[j]) is None by {
                    assert(flaw(front[j]) is None);
                }
            }
        }
        if exists|i: int|
            0 <= i < items.len() && flaw(#[trigger] items[i]) == Some(e) && forall|j: int|
                0 <= j < i ==> flaw(#[trigger] items[j]) is None {
            let i = choose|i: int|
                0 <= i < items.len() && flaw(#[trigger] items[i]) == Some(e) && forall|j: int|
                    0 <= j < i ==> flaw(#[trigger] items[j]) is None;
            if i < n {
                assert(flaw(front[i]) == Some(e));
                assert forall|j: int| 0 <= j < i implies flaw(#[trigger] front[j]) is None by {
                    assert(flaw(items[j]) is None);
                }
            } else {
                assert forall|j: int| 0 <= j < front.len() implies flaw(
                    #[trigger] front[j],
                ) is None by {
                    assert(flaw(items[j]) is None);
                }
            }
        }
    }
}

/// An error stands for its kind and its text, and for nothing else: errors that stand for the same
/// are of the same kind and have the same text.
pub proof fn law_errors_stand_for_themselves(a: DeltaError, b: DeltaError)
    ensures
        a is Generic ==> a@ == ErrorView::Generic(a->Generic_0@),
        a is FileNotFound ==> a@ == ErrorView::FileNotFound(a->FileNotFound_0@),
        a is Storage ==> a@ == ErrorView::Storage(a->Storage_0@),
        a is InvalidUrl ==> a@ == ErrorView::InvalidUrl(a->InvalidUrl_0@),
        a is InvalidProtocol ==> a@ == ErrorView::InvalidProtocol(a->InvalidProtocol_0@),
        a is MalformedJson ==> a@ == ErrorView::MalformedJson(a->MalformedJson_0@),
        a@ == b@ ==> (a is FileNotFound <==> b is FileNotFound),
{
}

} // verus!

//! The backends as one type, made by name.

use vstd::prelude::*;
use crate::error::{Error, ErrorView};
use crate::source::{Phase, Reading, ReadingView, Source};
use crate::source::fuzzysearch::{FuzzySearch, FuzzySearchView};
use crate::source::iqdb::Iqdb;
use crate::source::saucenao::SauceNao;
use crate::source::yandex::Yandex;
use crate::text::str_eq;
use crate::transport::{Request, RequestView, Response, ResponseView};

verus! {

/// One of the backends.
#[derive(Debug, Clone, PartialEq, Eq)]
pub enum Backend {
    SauceNao(SauceNao),
    Iqdb(Iqdb),
    Yandex(Yandex),
    FuzzySearch(FuzzySearch),
}

/// Mathematical content of a [`Backend`].
pub enum BackendView {
    SauceNao(Option<Seq<char>>),
    Iqdb,
    Yandex,
    FuzzySearch(FuzzySearchView),
}

impl View for Backend {
    type V = BackendView;

    open spec fn view(&self) -> BackendView {
        match self {
            Backend::SauceNao(source) => BackendView::SauceNao(source@),
            Backend::Iqdb(_) => BackendView::Iqdb,
            Backend::Yandex(_) => BackendView::Yandex,
            Backend::FuzzySearch(source) => BackendView::FuzzySearch(source@),
        }
    }
}

/// The backend that a name and a key stand for, or the failure in its
/// place: `saucenao` takes the key or none, `iqdb` and `yandex` take no
/// heed of it, and `fuzzysearch` needs it. No other name is known.
pub open spec fn named_backend(name: Seq<char>, key: Option<Seq<char>>) -> Result<
    BackendView,
    ErrorView,
> {
    if name == "saucenao"@ {
        Ok(BackendView::SauceNao(key))
    } else if name == "iqdb"@ {
        Ok(BackendView::Iqdb)
    } else if name == "yandex"@ {
        Ok(BackendView::Yandex)
    } else if name == "fuzzysearch"@ {
        match key {
            Some(key) => Ok(
                BackendView::FuzzySearch(
                    FuzzySearchView { endpoint: "https://api.fuzzysearch.net"@, api_key: key },
                ),
            ),
            None => Err(ErrorView::Generic("API key missing"@)),
        }
    } else {
        Err(ErrorView::Generic("unknown backend: "@ + name))
    }
}

impl Source for Backend {
    /// The name of the backend, and the key for it.
    type Argument = (String, Option<String>);

    open spec fn opening(&self, url: Seq<char>) -> Result<(RequestView, Phase), ErrorView> {
        match self {
            Backend::SauceNao(source) => source.opening(url),
            Backend::Iqdb(source) => source.opening(url),
            Backend::Yandex(source) => source.opening(url),
            Backend::FuzzySearch(source) => source.opening(url),
        }
    }

    open spec fn reading(
        &self,
        url: Seq<char>,
        phase: Phase,
        response: ResponseView,
    ) -> ReadingView {
        match self {
            Backend::SauceNao(source) => source.reading(url, phase, response),
            Backend::Iqdb(source) => source.reading(url, phase, response),
            Backend::Yandex(source) => source.reading(url, phase, response),
            Backend::FuzzySearch(source) => source.reading(url, phase, response),
        }
    }

    /// The backend that a name and a key stand for: see [`named_backend`].
    fn create(argument: (String, Option<String>)) -> (r: Result<Backend, Error>)
        ensures
            match named_backend(argument.0@, argument.1.deep_view()) {
                Ok(backend) => r matches Ok(made) && made@ == backend,
                Err(e) => r matches Err(failure) && failure@ == e,
            },
    {
        let (name, key) = argument;
        if str_eq(name.as_str(), "saucenao") {
            match SauceNao::create(key) {
                Ok(source) => Ok(Backend::SauceNao(source)),
                Err(e) => Err(e),
            }
        } else if str_eq(name.as_str(), "iqdb") {
            Ok(Backend::Iqdb(Iqdb))
        } else if str_eq(name.as_str(), "yandex") {
            Ok(Backend::Yandex(Yandex))
        } else if str_eq(name.as_str(), "fuzzysearch") {
            match key {
                Some(key) => match FuzzySearch::create(key) {
                    Ok(source) => Ok(Backend::FuzzySearch(source)),
                    Err(e) => Err(e),
                },
                None => Err(Error::Generic(String::from_str("API key missing"))),
            }
        } else {
            Err(Error::Generic(String::from_str("unknown backend: ").concat(name.as_str())))
        }
    }

    fn open(&self, url: &str) -> (r: Result<(Request, Phase), Error>) {
        match self {
            Backend::SauceNao(source) => source.open(url),
            Backend::Iqdb(source) => source.open(url),
            Backend::Yandex(source) => source.open(url),
            Backend::FuzzySearch(source) => source.open(url),
        }
    }

    fn read(&self, url: &str, phase: Phase, response: &Response) -> (reading: Reading) {
        match self {
            Backend::SauceNao(source) => source.read(url, phase, response),
            Backend::Iqdb(source) => source.read(url, phase, response),
            Backend::Yandex(source) => source.read(url, phase, response),
            Backend::FuzzySearch(source) => source.read(url, phase, response),
        }
    }
}

} // verus!

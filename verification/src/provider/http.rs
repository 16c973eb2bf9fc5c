//! Requests to web services, as plain values.
use crate::text::opt_text;
use vstd::prelude::*;

verus! {

/// How the fields of a request are sent.
#[derive(Clone, Copy, Debug, PartialEq, Eq, Structural)]
pub enum Method {
    /// In the query string.
    Get,
    /// As a form in the body.
    Post,
}

/// A request to a web service.
#[derive(Debug)]
pub struct HttpRequest {
    pub method: Method,
    pub url: String,
    /// Names and values, not yet escaped.
    pub fields: Vec<(String, String)>,
    pub referer: Option<String>,
}

/// A request, as plain values.
#[verifier::ext_equal]
pub struct HttpModel {
    pub method: Method,
    pub url: Seq<char>,
    pub fields: Seq<(Seq<char>, Seq<char>)>,
    pub referer: Option<Seq<char>>,
}

/// Names and values, as plain values.
pub open spec fn field_models(fields: Seq<(String, String)>) -> Seq<(Seq<char>, Seq<char>)> {
    fields.map_values(|f: (String, String)| (f.0@, f.1@))
}

impl View for HttpRequest {
    type V = HttpModel;

    open spec fn view(&self) -> HttpModel {
        HttpModel {
            method: self.method,
            url: self.url@,
            fields: field_models(self.fields@),
            referer: opt_text(self.referer),
        }
    }
}

impl HttpRequest {
    /// A request without fields.
    pub fn new(method: Method, url: &str) -> (r: Self)
        ensures
            r@ == (HttpModel { method, url: url@, fields: Seq::empty(), referer: None }),
    {
        let r = HttpRequest { method, url: url.to_owned(), fields: Vec::new(), referer: None };
        assert(r@.fields =~= Seq::empty());
        r
    }

    /// The request with one more field.
    pub fn field(self, name: &str, value: &str) -> (r: Self)
        ensures
            r@ == (HttpModel { fields: self@.fields.push((name@, value@)), ..self@ }),
    {
        let mut fields = self.fields;
        fields.push((name.to_owned(), value.to_owned()));
        let r = HttpRequest { method: self.method, url: self.url, fields, referer: self.referer };
        assert(r@.fields =~= self@.fields.push((name@, value@)));
        r
    }

    /// The request with a `Referer` header.
    pub fn from_page(self, referer: &str) -> (r: Self)
        ensures
            r@ == (HttpModel { referer: Some(referer@), ..self@ }),
    {
        HttpRequest {
            method: self.method,
            url: self.url,
            fields: self.fields,
            referer: Some(referer.to_owned()),
        }
    }
}

/// An optional request, as plain values.
pub open spec fn opt_http(r: Option<HttpRequest>) -> Option<HttpModel> {
    match r {
        Some(r) => Some(r@),
        None => None,
    }
}

} // verus!

//! The client: where notices go, what a notice looks like on the wire, and
//! what the server's answer means.
//!
//! The client does not open connections. It says which request to make, and
//! is told afterwards what came of it.

use vstd::prelude::*;
use crate::host::local_hostname;
use crate::report::{
    build_report,
    report_of,
    setting_view,
    ErrbitError,
    NotifierConfig,
    ReportView,
};
use crate::xml::{document, generate_errbit_xml};

verus! {

/// The tracker that notices are sent to, and the credential to send them
/// with.
#[derive(Clone, Debug)]
pub struct ErrbitClient {
    endpoint: String,
    api_key: String,
}

/// A client as a mathematical value.
pub struct ClientView {
    pub endpoint: Seq<char>,
    pub api_key: Seq<char>,
}

impl View for ErrbitClient {
    type V = ClientView;

    closed spec fn view(&self) -> ClientView {
        ClientView { endpoint: self.endpoint@, api_key: self.api_key@ }
    }
}

/// How a request is made. Notices are always posted.
#[derive(Clone, Copy, Debug, PartialEq, Eq, Structural)]
pub enum Method {
    Post,
}

/// One request, ready to be made.
#[derive(Clone, Debug)]
pub struct Request {
    pub method: Method,
    pub url: String,
    /// Name and value of each header, in the order in which they are set.
    pub headers: Vec<(String, String)>,
    pub body: String,
}

/// A request as a mathematical value.
pub struct RequestView {
    pub method: Method,
    pub url: Seq<char>,
    pub headers: Seq<(Seq<char>, Seq<char>)>,
    pub body: Seq<char>,
}

/// Name and value of a header as texts.
pub open spec fn header_view(header: (String, String)) -> (Seq<char>, Seq<char>) {
    (header.0@, header.1@)
}

impl View for Request {
    type V = RequestView;

    open spec fn view(&self) -> RequestView {
        RequestView {
            method: self.method,
            url: self.url@,
            headers: Seq::new(self.headers@.len(), |i: int| header_view(self.headers@[i])),
            body: self.body@,
        }
    }
}

/// What came of a request: the status of the server's response, or the
/// reason why there was no response.
#[derive(Clone, Debug, PartialEq, Eq)]
pub enum Reply<E> {
    Status(u16),
    Failed(E),
}

/// Why a notice did not arrive.
#[derive(Clone, Debug, PartialEq, Eq)]
pub enum NotifyError<E> {
    /// No response came; the cause is what the transport reported.
    TransportError(E),
    /// The server answered with a status other than success.
    ServerRejected(u16),
}

/// The statuses by which a server accepts a request.
pub open spec fn is_success(status: u16) -> bool {
    200 <= status <= 299
}

/// What a reply means for the notice.
pub open spec fn outcome_of<E>(reply: Reply<E>) -> Result<(), NotifyError<E>> {
    match reply {
        Reply::Status(status) => if is_success(status) {
            Ok(())
        } else {
            Err(NotifyError::ServerRejected(status))
        },
        Reply::Failed(cause) => Err(NotifyError::TransportError(cause)),
    }
}

/// The request that carries the notice of `report` to the tracker of
/// `client`.
pub open spec fn request_of(client: ClientView, report: ReportView) -> RequestView {
    RequestView {
        method: Method::Post,
        url: client.endpoint + "/notifier_api/v2/notices"@,
        headers: seq![
            ("X-Airbrake-Token"@, client.api_key),
            ("Content-Type"@, "application/xml"@),
        ],
        body: document(report),
    }
}

/// Says whether a server accepted a request with this status.
pub fn status_is_success(status: u16) -> (accepted: bool)
    ensures
        accepted == is_success(status),
{
    200 <= status && status <= 299
}

/// Says what a reply means for the notice: it arrived where the server
/// answered with a status of success, and did not arrive otherwise.
pub fn classify<E>(reply: Reply<E>) -> (outcome: Result<(), NotifyError<E>>)
    ensures
        outcome == outcome_of(reply),
{
    match reply {
        Reply::Status(status) => {
            if status_is_success(status) {
                Ok(())
            } else {
                Err(NotifyError::ServerRejected(status))
            }
        },
        Reply::Failed(cause) => Err(NotifyError::TransportError(cause)),
    }
}

/// A notice arrived exactly where a response came with a status from 200
/// to 299. Every other status is a rejection that names the status, and a
/// request without a response is a transport error that names the cause; the
/// two are never the same error.
pub proof fn lemma_outcomes<E>(status: u16, cause: E)
    ensures
        200 <= status <= 299 ==> outcome_of(Reply::<E>::Status(status)) == Ok::<
            (),
            NotifyError<E>,
        >(()),
        !(200 <= status <= 299) ==> outcome_of(Reply::<E>::Status(status)) == Err::<
            (),
            NotifyError<E>,
        >(NotifyError::ServerRejected(status)),
        outcome_of(Reply::Failed(cause)) == Err::<(), NotifyError<E>>(
            NotifyError::TransportError(cause),
        ),
        outcome_of(Reply::<E>::Status(status)) != outcome_of(Reply::Failed(cause)),
{
}

impl ErrbitClient {
    /// A client for the tracker at `endpoint`. Both texts are kept as they
    /// are; nothing is checked and nothing is sent.
    pub fn new(endpoint: &str, api_key: &str) -> (client: ErrbitClient)
        ensures
            client@.endpoint == endpoint@,
            client@.api_key == api_key@,
    {
        ErrbitClient { endpoint: endpoint.to_owned(), api_key: api_key.to_owned() }
    }

    /// The address of the tracker.
    pub fn endpoint(&self) -> (endpoint: &str)
        ensures
            endpoint@ == self@.endpoint,
    {
        self.endpoint.as_str()
    }

    /// The credential that notices are sent with.
    pub fn api_key(&self) -> (api_key: &str)
        ensures
            api_key@ == self@.api_key,
    {
        self.api_key.as_str()
    }

    /// The report of an error that describes itself as `description`. The
    /// name of this machine is looked up only where `config` gives no source
    /// address; whatever the lookup gives, the report is the one that
    /// `report_of` describes for it.
    pub fn report(&self, config: &NotifierConfig, description: &str) -> (report: ErrbitError)
        ensures
            exists|host: Option<Seq<char>>|
                report@ == report_of(self@.api_key, config@, description@, host),
            config@.source_url is Some ==> report@ == report_of(
                self@.api_key,
                config@,
                description@,
                None,
            ),
    {
        match &config.source_url {
            Some(_) => {
                build_report(self.api_key.as_str(), config, description, None)
            },
            None => {
                let host = local_hostname();
                let report = match &host {
                    Some(name) => build_report(
                        self.api_key.as_str(),
                        config,
                        description,
                        Some(name.as_str()),
                    ),
                    None => build_report(self.api_key.as_str(), config, description, None),
                };
                assert(report@ == report_of(
                    self@.api_key,
                    config@,
                    description@,
                    setting_view(host),
                ));
                report
            },
        }
    }

    /// The request that carries the notice of `report` to the tracker: a
    /// post to the notices address under the endpoint, with the credential
    /// and the content type as headers and the notice document as body.
    pub fn request_for(&self, report: &ErrbitError) -> (request: Request)
        ensures
            request@ == request_of(self@, report@),
    {
        let mut url = self.endpoint.clone();
        url.append("/notifier_api/v2/notices");
        let headers = vec![
            ("X-Airbrake-Token".to_owned(), self.api_key.clone()),
            ("Content-Type".to_owned(), "application/xml".to_owned()),
        ];
        let request = Request { method: Method::Post, url, headers, body: generate_errbit_xml(report) };
        assert(request@.headers =~= request_of(self@, report@).headers);
        request
    }

    /// Prepares the notice of one error: builds the report, renders it, and
    /// addresses it to the tracker. The caller makes the request, once, and
    /// learns from `classify` what the answer means.
    pub fn notify(&self, config: &NotifierConfig, description: &str) -> (request: Request)
        ensures
            exists|host: Option<Seq<char>>|
                request@ == request_of(
                    self@,
                    report_of(self@.api_key, config@, description@, host),
                ),
            config@.source_url is Some ==> request@ == request_of(
                self@,
                report_of(self@.api_key, config@, description@, None),
            ),
    {
        let report = self.report(config, description);
        self.request_for(&report)
    }
}

} // verus!

//! The errors of the client.

use vstd::prelude::*;

verus! {

/// What can go wrong.
#[derive(Debug)]
pub enum HathError {
    Io(String),
    Http(String),
    Tls(String),
    Hyper(String),
    Rpc(String),
    Config(String),
    Cache(String),
    Parse(String),
    Network(String),
    /// A failed proxy download, with the HTTP status to answer with.
    ProxyDownloader { status: u16, message: String },
    Shutdown,
    CertExpired,
    Fatal(String),
}

/// An error with its text as characters.
pub ghost enum ErrorView {
    Io(Seq<char>),
    Http(Seq<char>),
    Tls(Seq<char>),
    Hyper(Seq<char>),
    Rpc(Seq<char>),
    Config(Seq<char>),
    Cache(Seq<char>),
    Parse(Seq<char>),
    Network(Seq<char>),
    ProxyDownloader(u16, Seq<char>),
    Shutdown,
    CertExpired,
    Fatal(Seq<char>),
}

impl View for HathError {
    type V = ErrorView;

    open spec fn view(&self) -> ErrorView {
        match self {
            HathError::Io(s) => ErrorView::Io(s@),
            HathError::Http(s) => ErrorView::Http(s@),
            HathError::Tls(s) => ErrorView::Tls(s@),
            HathError::Hyper(s) => ErrorView::Hyper(s@),
            HathError::Rpc(s) => ErrorView::Rpc(s@),
            HathError::Config(s) => ErrorView::Config(s@),
            HathError::Cache(s) => ErrorView::Cache(s@),
            HathError::Parse(s) => ErrorView::Parse(s@),
            HathError::Network(s) => ErrorView::Network(s@),
            HathError::ProxyDownloader { status, message } => ErrorView::ProxyDownloader(*status, message@),
            HathError::Shutdown => ErrorView::Shutdown,
            HathError::CertExpired => ErrorView::CertExpired,
            HathError::Fatal(s) => ErrorView::Fatal(s@),
        }
    }
}

/// The text that describes an error to a reader.
pub open spec fn error_text(e: ErrorView) -> Seq<char> {
    match e {
        ErrorView::Io(s) => "I/O error: "@ + s,
        ErrorView::Http(s) => "HTTP error: "@ + s,
        ErrorView::Tls(s) => "TLS error: "@ + s,
        ErrorView::Hyper(s) => "Hyper error: "@ + s,
        ErrorView::Rpc(s) => "RPC error: "@ + s,
        ErrorView::Config(s) => "Config error: "@ + s,
        ErrorView::Cache(s) => "Cache error: "@ + s,
        ErrorView::Parse(s) => "Parse error: "@ + s,
        ErrorView::Network(s) => "Network error: "@ + s,
        ErrorView::ProxyDownloader(status, message) => "Proxy download error ("@ + crate::number::decimal(
            status as nat,
        ) + "): "@ + message,
        ErrorView::Shutdown => "Shutdown requested"@,
        ErrorView::CertExpired => "Certificate expired"@,
        ErrorView::Fatal(s) => s,
    }
}

impl HathError {
    /// The text that describes the error to a reader.
    pub fn to_text(&self) -> (r: String)
        ensures
            r@ == error_text(self@),
    {
        match self {
            HathError::Io(s) => crate::text::concat("I/O error: ", s.as_str()),
            HathError::Http(s) => crate::text::concat("HTTP error: ", s.as_str()),
            HathError::Tls(s) => crate::text::concat("TLS error: ", s.as_str()),
            HathError::Hyper(s) => crate::text::concat("Hyper error: ", s.as_str()),
            HathError::Rpc(s) => crate::text::concat("RPC error: ", s.as_str()),
            HathError::Config(s) => crate::text::concat("Config error: ", s.as_str()),
            HathError::Cache(s) => crate::text::concat("Cache error: ", s.as_str()),
            HathError::Parse(s) => crate::text::concat("Parse error: ", s.as_str()),
            HathError::Network(s) => crate::text::concat("Network error: ", s.as_str()),
            HathError::ProxyDownloader { status, message } => {
                let mut out = String::from_str("Proxy download error (");
                crate::number::push_decimal(&mut out, *status as u64);
                out.append("): ");
                out.append(message.as_str());
                out
            },
            HathError::Shutdown => String::from_str("Shutdown requested"),
            HathError::CertExpired => String::from_str("Certificate expired"),
            HathError::Fatal(s) => s.clone(),
        }
    }
}

pub type Result<T> = core::result::Result<T, HathError>;

} // verus!

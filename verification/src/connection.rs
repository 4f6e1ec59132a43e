//! Which sink a run writes to: a local file, or a remote database.

use vstd::prelude::*;
use vstd::string::StringExecFns;

verus! {

/// Where the sink is.
#[derive(Clone, Debug, PartialEq, Eq)]
pub enum ConnectionMode {
    /// A local file at this path.
    Local(String),
    /// A remote database at this address.
    Remote { url: String },
}

/// What a `ConnectionMode` holds.
pub enum ConnectionModeView {
    Local(Seq<char>),
    Remote { url: Seq<char> },
}

impl View for ConnectionMode {
    type V = ConnectionModeView;

    open spec fn view(&self) -> ConnectionModeView {
        match self {
            ConnectionMode::Local(path) => ConnectionModeView::Local(path@),
            ConnectionMode::Remote { url } => ConnectionModeView::Remote { url: url@ },
        }
    }
}

/// The sink that is chosen: the remote database where both its address and
/// its token are known; else the local file, at `output.db` where no path
/// is given.
pub open spec fn chosen_mode(
    remote_url: Option<Seq<char>>,
    token_known: bool,
    output_path: Option<Seq<char>>,
) -> ConnectionModeView {
    match remote_url {
        Some(url) if token_known => ConnectionModeView::Remote { url },
        _ => match output_path {
            Some(path) => ConnectionModeView::Local(path),
            None => ConnectionModeView::Local("output.db"@),
        },
    }
}

/// The characters of a text that may be missing.
pub open spec fn optional_view(text: Option<&str>) -> Option<Seq<char>> {
    match text {
        Some(t) => Some(t@),
        None => None,
    }
}

impl ConnectionMode {
    /// Chooses the sink from the address and the token of the remote
    /// database, as far as they are known, and the path that was asked for.
    pub fn select(remote_url: Option<&str>, remote_token: Option<&str>, output_path: Option<&str>) -> (r:
        ConnectionMode)
        ensures
            r@ == chosen_mode(
                optional_view(remote_url),
                remote_token.is_some(),
                optional_view(output_path),
            ),
    {
        match (remote_url, remote_token) {
            (Some(url), Some(_)) => ConnectionMode::Remote { url: url.to_owned() },
            _ => match output_path {
                Some(path) => ConnectionMode::Local(path.to_owned()),
                None => ConnectionMode::Local("output.db".to_owned()),
            },
        }
    }

    /// A line that says where the sink is.
    pub fn connection_info(&self) -> (r: String)
        ensures
            r@ == match self@ {
                ConnectionModeView::Local(path) => "Local file: "@ + path,
                ConnectionModeView::Remote { url } => "Turso cloud: "@ + url,
            },
    {
        match self {
            ConnectionMode::Local(path) => {
                let mut text = "Local file: ".to_owned();
                text.append(path.as_str());
                text
            },
            ConnectionMode::Remote { url } => {
                let mut text = "Turso cloud: ".to_owned();
                text.append(url.as_str());
                text
            },
        }
    }

    /// Whether the sink is a local file.
    pub fn is_local(&self) -> (r: bool)
        ensures
            r == (self@ is Local),
    {
        match self {
            ConnectionMode::Local(_) => true,
            ConnectionMode::Remote { .. } => false,
        }
    }

    /// The path of the local file, where the sink is one.
    pub fn output_path(&self) -> (r: Option<String>)
        ensures
            match r {
                Some(path) => self@ == ConnectionModeView::Local(path@),
                None => self@ is Remote,
            },
    {
        match self {
            ConnectionMode::Local(path) => Some(path.clone()),
            ConnectionMode::Remote { .. } => None,
        }
    }
}

} // verus!

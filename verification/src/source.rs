//! Where the archives come from: the components of a toolchain, the server
//! that hosts them and the address of each archive.

use crate::error::Failure;
use crate::error::InstallError;
use url::ParseError;
use url::Url;
use vstd::prelude::*;
use vstd::string::StringExecFns;

verus! {

/// `url::ParseError`, the reason for which a text is no URL. Nothing inside
/// it is visible here.
#[verifier::external_type_specification]
#[verifier::external_body]
pub struct ExParseError(ParseError);

/// One archive of a toolchain: the file to fetch, and the subtree of that
/// archive which holds the component's files.
#[derive(Clone, Debug, PartialEq, Eq)]
pub struct Component {
    pub archive: String,
    pub subdir: String,
}

impl View for Component {
    type V = (Seq<char>, Seq<char>);

    open spec fn view(&self) -> (Seq<char>, Seq<char>) {
        (self.archive@, self.subdir@)
    }
}

/// What a run is configured with, fixed once at its start.
#[derive(Clone, Debug, PartialEq, Eq)]
pub struct Config {
    /// The server that hosts the archives, without a trailing slash.
    pub server: String,
    /// The user agent that every request carries.
    pub user_agent: String,
    /// The components to install, each fetched and extracted by itself.
    pub components: Vec<Component>,
}

/// The file name of the nightly archive of `package` for `target`.
pub open spec fn archive_name(package: Seq<char>, target: Seq<char>) -> Seq<char> {
    package + "-nightly-"@ + target + ".tar.xz"@
}

/// The components of a nightly toolchain for `target`, each as its archive
/// and its subtree.
pub open spec fn standard_components(target: Seq<char>) -> Seq<(Seq<char>, Seq<char>)> {
    seq![
        (archive_name("cargo"@, target), "cargo"@),
        (archive_name("clippy"@, target), "clippy-preview"@),
        (archive_name("rust-docs"@, target), "rust-docs"@),
        (archive_name("rust-std"@, target), "rust-std-"@ + target),
        (archive_name("rustc"@, target), "rustc"@),
        (archive_name("rustfmt"@, target), "rustfmt-preview"@),
    ]
}

/// The address of `archive` in the release of `date` on `server`.
pub open spec fn archive_address(server: Seq<char>, date: Seq<char>, archive: Seq<char>) -> Seq<
    char,
> {
    server + "/dist/"@ + date + "/"@ + archive
}

fn component(package: &str, target: &str, subdir: String) -> (c: Component)
    ensures
        c@ == (archive_name(package@, target@), subdir@),
{
    let mut archive = String::from_str(package);
    archive.append("-nightly-");
    archive.append(target);
    archive.append(".tar.xz");
    Component { archive, subdir }
}

impl Config {
    /// The components as pairs of archive and subtree.
    pub open spec fn component_views(&self) -> Seq<(Seq<char>, Seq<char>)> {
        Seq::new(self.components@.len(), |i: int| self.components@[i]@)
    }

    /// The configuration of a run that installs the nightly toolchain for
    /// `target`, made by release `release` of this program.
    pub fn standard(target: &str, release: &str) -> (config: Config)
        ensures
            config.server@ == "https://static.rust-lang.org"@,
            config.user_agent@ == "dtolnay/fast-rustup/v"@ + release@,
            config.component_views() == standard_components(target@),
    {
        let mut std_subdir = String::from_str("rust-std-");
        std_subdir.append(target);
        let mut components: Vec<Component> = Vec::new();
        components.push(component("cargo", target, String::from_str("cargo")));
        components.push(component("clippy", target, String::from_str("clippy-preview")));
        components.push(component("rust-docs", target, String::from_str("rust-docs")));
        components.push(component("rust-std", target, std_subdir));
        components.push(component("rustc", target, String::from_str("rustc")));
        components.push(component("rustfmt", target, String::from_str("rustfmt-preview")));
        let mut user_agent = String::from_str("dtolnay/fast-rustup/v");
        user_agent.append(release);
        let config = Config {
            server: String::from_str("https://static.rust-lang.org"),
            user_agent,
            components,
        };
        config
    }
}

/// Writes the address of `archive` in the release of `date` on `server`.
pub fn archive_url(server: &str, date: &str, archive: &str) -> (address: String)
    ensures
        address@ == archive_address(server@, date@, archive@),
{
    let mut address = String::from_str(server);
    address.append("/dist/");
    address.append(date);
    address.append("/");
    address.append(archive);
    address
}

/// The text of the URL that `Url::parse` reads out of `input`, or `None`
/// where it refuses `input`.
pub uninterp spec fn parsed_url(input: Seq<char>) -> Option<Seq<char>>;

/// `Url::parse`, with the URL that it gives turned into its text
/// (`String::from`): the result depends on `input` alone, and is an error
/// exactly where no absolute URL can be read out of `input`.
#[verifier::external_body]
fn url_parse(input: &str) -> (r: Result<String, ParseError>)
    ensures
        r is Ok <==> parsed_url(input@) is Some,
        r matches Ok(text) ==> parsed_url(input@) == Some(text@),
{
    Url::parse(input).map(String::from)
}

/// Judges what parsing the address `requested` gave: the URL's text where
/// there is one, else the failure of a request that cannot be sent.
pub fn checked_url(requested: &str, parsed: Result<String, ParseError>) -> (r: Result<
    String,
    InstallError,
>)
    ensures
        parsed matches Ok(text) ==> r == Ok::<String, InstallError>(text),
        parsed is Err ==> (r matches Err(e) && e@ == (Failure::RequestError {
            url: requested@,
            message: "malformed URL"@,
        })),
{
    match parsed {
        Ok(text) => Ok(text),
        Err(_) => Err(
            InstallError::RequestError {
                url: String::from_str(requested),
                message: String::from_str("malformed URL"),
            },
        ),
    }
}

/// The URL to fetch `archive` from, for the release of `date` on `server`:
/// the archive's address as the URL parser writes it, or the failure of a
/// request that cannot be sent where the address is no URL.
pub fn component_url(server: &str, date: &str, archive: &str) -> (r: Result<String, InstallError>)
    ensures
        match parsed_url(archive_address(server@, date@, archive@)) {
            Some(text) => r matches Ok(url) && url@ == text,
            None => r matches Err(e) && e@ == (Failure::RequestError {
                url: archive_address(server@, date@, archive@),
                message: "malformed URL"@,
            }),
        },
{
    let address = archive_url(server, date, archive);
    let parsed = url_parse(address.as_str());
    checked_url(address.as_str(), parsed)
}

} // verus!

use crate::errors::Error;
use vstd::prelude::*;

verus! {

/// Content-level classification that a locator decodes to.
///
/// The set is closed: each variant answers, through [`ContentType::is_versionable`],
/// whether content of its kind may change over time and therefore needs a
/// version anchor before a name can be registered against it.
#[derive(Debug, Clone, PartialEq, Eq)]
pub enum ContentType {
    Raw,
    MediaType(String),
    Wallet,
    FilesContainer,
    NrsMapContainer,
    Multimap,
}

impl ContentType {
    /// Whether content of this classification is versionable, so that a link
    /// to it must pin a version anchor.
    pub open spec fn is_versionable(self) -> bool {
        self is FilesContainer || self is NrsMapContainer
    }

    /// The name of the classification, for error messages.
    pub open spec fn spec_description(self) -> Seq<char> {
        match self {
            ContentType::Raw => "Raw"@,
            ContentType::MediaType(media) => media@,
            ContentType::Wallet => "Wallet"@,
            ContentType::FilesContainer => "FilesContainer"@,
            ContentType::NrsMapContainer => "NrsMapContainer"@,
            ContentType::Multimap => "Multimap"@,
        }
    }

    /// The name of the classification, for error messages.
    pub fn description(&self) -> (r: String)
        ensures
            r@ == self.spec_description(),
    {
        match self {
            ContentType::Raw => String::from_str("Raw"),
            ContentType::MediaType(media) => media.clone(),
            ContentType::Wallet => String::from_str("Wallet"),
            ContentType::FilesContainer => String::from_str("FilesContainer"),
            ContentType::NrsMapContainer => String::from_str("NrsMapContainer"),
            ContentType::Multimap => String::from_str("Multimap"),
        }
    }
}

/// Data-level classification that a locator decodes to.
#[derive(Debug, Clone, Copy, PartialEq, Eq)]
pub enum DataType {
    SafeKey,
    File,
    Register,
}

impl DataType {
    /// Whether data of this classification is versionable, so that a link
    /// to it must pin a version anchor.
    pub open spec fn is_versionable(self) -> bool {
        self is Register
    }

    /// The name of the classification, for error messages.
    pub open spec fn spec_description(self) -> Seq<char> {
        match self {
            DataType::SafeKey => "SafeKey"@,
            DataType::File => "File"@,
            DataType::Register => "Register"@,
        }
    }

    /// The name of the classification, for error messages.
    pub fn description(&self) -> (r: String)
        ensures
            r@ == self.spec_description(),
    {
        match self {
            DataType::SafeKey => String::from_str("SafeKey"),
            DataType::File => String::from_str("File"),
            DataType::Register => String::from_str("Register"),
        }
    }
}

/// A content locator: the opaque locator string together with the three facts
/// it decodes to.
///
/// Decoding a raw locator string is the business of the surrounding
/// application's locator parser; this core takes the decoded facts as plain
/// values, validates them, and treats the string itself as opaque.
#[derive(Debug, Clone, PartialEq, Eq)]
pub struct ContentLocator {
    /// The locator string, as stored in and returned from the map.
    pub url: String,
    /// The content-level classification the string decodes to.
    pub content_type: ContentType,
    /// The data-level classification the string decodes to.
    pub data_type: DataType,
    /// Whether the locator pins a version anchor (an immutable snapshot).
    pub has_version_anchor: bool,
}

impl ContentLocator {
    /// Whether this locator points at versionable content, which a name may
    /// only be registered against when a version anchor is pinned.
    pub open spec fn requires_version_anchor(self) -> bool {
        self.content_type.is_versionable() || self.data_type.is_versionable()
    }

    /// Whether this locator breaks the version-anchor rule: it points at
    /// versionable content yet pins no version anchor.
    pub open spec fn violates_version_rule(self) -> bool {
        self.requires_version_anchor() && !self.has_version_anchor
    }

    /// The classification a version-anchor rejection names: the content type
    /// where it is versionable, otherwise the data type.
    pub open spec fn offending_description(self) -> Seq<char> {
        if self.content_type.is_versionable() {
            self.content_type.spec_description()
        } else {
            self.data_type.spec_description()
        }
    }

    /// The message of a version-anchor rejection of this locator: it names
    /// the offending classification and the literal locator string.
    pub open spec fn version_rule_error_message(self) -> Seq<char> {
        "The linked content ("@ + self.offending_description()
            + ") is versionable, therefore NRS requires the link to specify a hash: \""@
            + self.url@ + "\""@
    }
}

/// Checks the version-anchor rule: a locator whose content is versionable
/// (a files container, a nested name map, or a register) is rejected unless
/// it pins a version anchor. A name's promise is referential stability, so a
/// link to a live, mutable object must pin the snapshot it means.
pub fn validate_nrs_link(link: &ContentLocator) -> (r: Result<(), Error>)
    ensures
        r is Ok <==> !link.violates_version_rule(),
        r matches Err(e) ==> (e matches Error::ValidationError(msg) && msg@
            == link.version_rule_error_message()),
{
    if !link.has_version_anchor {
        let versionable_content = match &link.content_type {
            ContentType::FilesContainer => true,
            ContentType::NrsMapContainer => true,
            _ => false,
        };
        if versionable_content {
            let kind = link.content_type.description();
            return Err(Error::ValidationError(version_rule_message(&kind, &link.url)));
        }
        let versionable_data = match &link.data_type {
            DataType::Register => true,
            _ => false,
        };
        if versionable_data {
            let kind = link.data_type.description();
            return Err(Error::ValidationError(version_rule_message(&kind, &link.url)));
        }
    }
    Ok(())
}

/// Builds the message of a version-anchor rejection, naming the offending
/// classification and the literal locator string.
fn version_rule_message(kind: &String, url: &String) -> (r: String)
    ensures
        r@ == "The linked content ("@ + kind@
            + ") is versionable, therefore NRS requires the link to specify a hash: \""@ + url@
            + "\""@,
{
    let mut msg = String::from_str("The linked content (");
    msg.append(kind.as_str());
    msg.append(") is versionable, therefore NRS requires the link to specify a hash: \"");
    msg.append(url.as_str());
    msg.append("\"");
    msg
}

} // verus!

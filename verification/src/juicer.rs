//! The extraction engine, as far as the repository has a say in it.
//!
//! The engine runs in a container of its own and derives the plain text and
//! the preview of a staged bundle from its document. What is decided here is
//! how the container is set up and what its exit means; running it is the
//! driver's part.

use vstd::prelude::*;
use vstd::string::StringExecFns;

use crate::error::RepositoryError;
use crate::kind::{Kind, KindView};
use crate::repository::{Bundle, BundleView, Staging};

verus! {

/// How the engine is configured: the image to run, or none for the usual one.
pub struct DockerJuicerConfig {
    pub image: Option<String>,
}

/// The extraction engine.
pub struct Juicer {
    image: String,
}

/// The container in which the engine works on one bundle.
pub struct Extraction {
    /// The name of the container.
    pub name: String,
    /// The image that is run.
    pub image: String,
    /// The environment, which tells the engine the identifier of the bundle.
    pub env: Vec<String>,
    /// The container has no network.
    pub network_disabled: bool,
    /// The bundle's directory, bound to the place where the engine works.
    pub binds: Vec<String>,
    /// The fragment that takes what the container writes to its output.
    pub log: Kind,
}

/// How a container ended.
pub struct Exit {
    pub status_code: i64,
    /// What the container runtime had to say about it, if anything.
    pub error: Option<String>,
}

/// The name of the image that is run where none is configured.
pub open spec fn default_image() -> Seq<char> {
    "adacta10/juicer"@
}

/// The message of a failed extraction.
pub open spec fn failure_message(error: Option<String>) -> Seq<char> {
    "Error while juicing: "@ + match error {
        Some(message) => message@,
        None => "unknown"@,
    }
}

impl Juicer {
    /// The image that is run.
    pub closed spec fn image_name(&self) -> Seq<char> {
        self.image@
    }

    /// The engine as configured.
    pub fn from_config(config: DockerJuicerConfig) -> (juicer: Juicer)
        ensures
            juicer.image_name() == match config.image {
                Some(image) => image@,
                None => default_image(),
            },
    {
        let image = match config.image {
            Some(image) => image,
            None => String::from_str("adacta10/juicer"),
        };
        Juicer { image }
    }

    /// The image that is run.
    pub fn image(&self) -> (image: &str)
        ensures
            image@ == self.image_name(),
    {
        self.image.as_str()
    }

    /// Sets up the extraction for a staged bundle: a container without
    /// network, named after the bundle, that finds the bundle's directory
    /// under `/juicer` and its identifier in `DID`. What it prints goes to
    /// the fragment `juicer.log`.
    pub fn extract(&self, bundle: &Bundle<'_, Staging>) -> (extraction: Extraction)
        ensures
            extraction.name@ == "juicer-"@ + bundle@.name(),
            extraction.image@ == self.image_name(),
            extraction.env@.len() == 1,
            extraction.env@[0]@ == "DID="@ + bundle@.name(),
            extraction.network_disabled,
            extraction.binds@.len() == 1,
            extraction.binds@[0]@ == bundle@.path() + ":/juicer"@,
            extraction.log@ == (KindView::Other { name: "juicer.log"@ }),
    {
        let id = bundle.id().to_base58();
        let name = String::from_str("juicer-").concat(id.as_str());
        let variable = String::from_str("DID=").concat(id.as_str());
        let bind = bundle.path().concat(":/juicer");
        let mut env: Vec<String> = Vec::new();
        env.push(variable);
        let mut binds: Vec<String> = Vec::new();
        binds.push(bind);
        Extraction {
            name,
            image: self.image.clone(),
            env,
            network_disabled: true,
            binds,
            log: Kind::other("juicer.log"),
        }
    }
}

impl Extraction {
    /// What the exit of the container means: status zero is success, any
    /// other status is a failed extraction with what the runtime said about
    /// it.
    pub fn settle(self, exit: Exit) -> (result: Result<(), RepositoryError>)
        ensures
            exit.status_code == 0 ==> result is Ok,
            exit.status_code != 0 ==> (result matches Err(
                RepositoryError::ExtractionFailure(message),
            ) && message@ == failure_message(exit.error)),
    {
        if exit.status_code != 0 {
            let message = match exit.error {
                Some(message) => String::from_str("Error while juicing: ").concat(
                    message.as_str(),
                ),
                None => String::from_str("Error while juicing: ").concat("unknown"),
            };
            return Err(RepositoryError::ExtractionFailure(message));
        }
        Ok(())
    }
}

} // verus!

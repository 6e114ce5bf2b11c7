//! Taking a plaintext store into the service, and destroying the file.

use vstd::prelude::*;
use vstd::string::*;
use vstd::utf8::*;

use super::file::{shred, FileStep};
use super::keyring::{self, read_keyring, Answer};
use super::{write_request, Kind, WriteRequest};
use crate::text::{self, join_path, same_text, to_decimal};

verus! {

broadcast use vstd::string::group_string_axioms;

/// A migration under way: the body that was found in the file and where.
pub struct Adoption {
    pub kind: Kind,
    pub path: String,
    pub body: String,
}

/// What a migration does next.
pub enum AdoptStep {
    /// Have the service store this.
    Store(WriteRequest),
    /// Ask the service for it back.
    ReadBack,
    /// Destroy the file with these steps.
    Destroy(Vec<FileStep>),
    /// The migration is over, and this line says how.
    Done(String),
}

/// What a migration begins with, once the file was read. There is none where
/// there is no readable file.
pub fn adopt_file(dir: &str, profile: Option<&str>, kind: Kind, read: Option<String>) -> (begun:
    Option<(Adoption, AdoptStep)>)
    ensures
        match begun {
            Some((adoption, step)) => read == Some(adoption.body) && adoption.kind == kind
                && adoption.path@ == text::joined(dir@, kind.named()) && step is Store
                && super::stores(
                step->Store_0,
                dir@,
                super::name_view(profile),
                kind,
                adoption.body@,
            ),
            None => read is None,
        },
{
    match read {
        None => None,
        Some(body) => {
            let request = write_request(dir, profile, kind, body.as_str());
            let path = join_path(dir, kind.name());
            Some((Adoption { kind, path, body }, AdoptStep::Store(request)))
        },
    }
}

impl Adoption {
    /// The body of the file as bytes.
    pub open spec fn length(self) -> nat {
        encode_utf8(self.body@).len()
    }

    /// What a body that could not be stored is reported as.
    pub open spec fn left_line(self, why: Seq<char>) -> Seq<char> {
        "  [secrets] "@ + self.kind.named() + ": "@ + text::decimal(self.length())
            + " bytes are still in plaintext at "@ + self.path@ + " ("@ + why
            + "); it was left alone rather than half-moved"@
    }

    /// What a body that did not come back is reported as.
    pub open spec fn unconfirmed_line(self) -> Seq<char> {
        "  [secrets] "@ + self.kind.named()
            + ": the secret service did not hand back what it was given, so "@ + self.path@
            + " was left alone"@
    }

    /// What a finished migration is reported as.
    pub open spec fn moved_line(self) -> Seq<char> {
        "  [secrets] "@ + self.kind.named() + ": "@ + text::decimal(self.length())
            + " bytes moved into the secret service; the plaintext file was overwritten and removed"@
    }

    /// What a file that could not be destroyed is reported as.
    pub open spec fn kept_line(self, e: Seq<char>) -> Seq<char> {
        "  [secrets] "@ + self.kind.named() + ": moved into the secret service, but "@ + self.path@
            + " could not be destroyed ("@ + e + "); delete it by hand"@
    }

    /// What follows storing: ask for it back, or leave the file alone.
    pub fn stored(&self, outcome: Result<(), String>) -> (step: AdoptStep)
        ensures
            match outcome {
                Ok(_) => step is ReadBack,
                Err(why) => step matches AdoptStep::Done(line) && line@ == self.left_line(why@),
            },
    {
        match outcome {
            Ok(_) => AdoptStep::ReadBack,
            Err(why) => {
                let len: usize = self.body.as_str().as_bytes().len();
                let mut line = "  [secrets] ".to_owned();
                line.append(self.kind.name());
                line.append(": ");
                line.append(to_decimal(len as u64).as_str());
                line.append(" bytes are still in plaintext at ");
                line.append(self.path.as_str());
                line.append(" (");
                line.append(why.as_str());
                line.append("); it was left alone rather than half-moved");
                AdoptStep::Done(line)
            },
        }
    }

    /// What follows asking for it back. The file is destroyed only where the
    /// service handed back the body it was given, character for character: that
    /// a write was accepted does not say the item is there to be read. `len` is
    /// the length of the file, or why it cannot be told, which leaves the file
    /// where it is.
    pub fn read_back(&self, answer: Answer, len: Result<u64, String>) -> (step: AdoptStep)
        ensures
            keyring::read_out(keyring::answer_view(answer)) == Ok::<Option<Seq<char>>, Seq<char>>(
                Some(self.body@),
            ) ==> match len {
                Ok(len) => step is Destroy && super::file::destroys(
                    step->Destroy_0@,
                    self.path@,
                    len as int,
                ),
                Err(e) => step matches AdoptStep::Done(line) && line@ == self.kept_line(e@),
            },
            keyring::read_out(keyring::answer_view(answer)) != Ok::<Option<Seq<char>>, Seq<char>>(
                Some(self.body@),
            ) ==> (step matches AdoptStep::Done(line) && line@ == self.unconfirmed_line()),
    {
        let same = match read_keyring(answer) {
            Ok(Some(back)) => same_text(back.as_str(), self.body.as_str()),
            _ => false,
        };
        if same {
            match len {
                Ok(len) => AdoptStep::Destroy(shred(self.path.as_str(), len)),
                Err(e) => AdoptStep::Done(self.destroyed(Err(e))),
            }
        } else {
            let mut line = "  [secrets] ".to_owned();
            line.append(self.kind.name());
            line.append(": the secret service did not hand back what it was given, so ");
            line.append(self.path.as_str());
            line.append(" was left alone");
            AdoptStep::Done(line)
        }
    }

    /// What is said once the file was destroyed or could not be.
    pub fn destroyed(&self, outcome: Result<(), String>) -> (line: String)
        ensures
            line@ == (match outcome {
                Ok(_) => self.moved_line(),
                Err(e) => self.kept_line(e@),
            }),
    {
        let mut line = "  [secrets] ".to_owned();
        line.append(self.kind.name());
        match outcome {
            Ok(_) => {
                let len: usize = self.body.as_str().as_bytes().len();
                line.append(": ");
                line.append(to_decimal(len as u64).as_str());
                line.append(
                    " bytes moved into the secret service; the plaintext file was overwritten and removed",
                );
            },
            Err(e) => {
                line.append(": moved into the secret service, but ");
                line.append(self.path.as_str());
                line.append(" could not be destroyed (");
                line.append(e.as_str());
                line.append("); delete it by hand");
            },
        }
        line
    }
}

/// A service that keeps what it is given has the file adopted: the body it was
/// handed reads back as the body of the file, so the file is destroyed, and the
/// next launch reads the same body from the service.
pub proof fn law_a_plaintext_store_is_adopted(
    request: WriteRequest,
    dir: Seq<char>,
    profile: Option<Seq<char>>,
    kind: Kind,
    body: Seq<char>,
)
    requires
        super::stores(request, dir, profile, kind, body),
    ensures
        keyring::read_out(Ok(Some(request.body@))) == Ok::<Option<Seq<char>>, Seq<char>>(
            Some(body),
        ),
        super::loaded_of(kind, Ok(Some(request.body@))).0 == Some(body),
        super::body_loaded(super::Store::Keyring, kind, None, Ok(Some(request.body@))) == Some(
            body,
        ),
{
    keyring::law_a_session_survives_the_round_trip(body);
}

/// What a migration says names what was moved, how much of it and where it was.
pub proof fn law_a_migration_says_what_became_of_the_file(adoption: Adoption, why: Seq<char>)
    ensures
        adoption.left_line(why) == "  [secrets] "@ + adoption.kind.named() + ": "@ + text::decimal(
            encode_utf8(adoption.body@).len(),
        ) + " bytes are still in plaintext at "@ + adoption.path@ + " ("@ + why
            + "); it was left alone rather than half-moved"@,
        adoption.unconfirmed_line() == "  [secrets] "@ + adoption.kind.named()
            + ": the secret service did not hand back what it was given, so "@ + adoption.path@
            + " was left alone"@,
        adoption.moved_line() == "  [secrets] "@ + adoption.kind.named() + ": "@ + text::decimal(
            encode_utf8(adoption.body@).len(),
        )
            + " bytes moved into the secret service; the plaintext file was overwritten and removed"@,
        adoption.kept_line(why) == "  [secrets] "@ + adoption.kind.named()
            + ": moved into the secret service, but "@ + adoption.path@
            + " could not be destroyed ("@ + why + "); delete it by hand"@,
{
}

} // verus!

//! Taking a configuration in anew while the daemon runs.
//!
//! The new configuration is checked in full before it is handed out, so that
//! the one in use stays until a sound one is there.

use super::load::{load_config, loaded, ContentError, FileFacts, OpenError};
use super::schema::{Config, ValidationError, Violation};
use super::validate::{law_nothing_wrong_means_sound, listed, sound, validate, violations};
use crate::glyph::{plain, put_glyphs, put_text, shown, Glyph, Mark};
use vstd::prelude::*;

verus! {

/// Why a configuration was not taken in.
#[derive(Debug, Clone, PartialEq, Eq)]
pub enum ReloadError {
    /// The file could not be opened, read or parsed.
    Load(ValidationError),
    /// The configuration breaks the rules.
    Validation(Vec<ValidationError>),
}

/// The errors in words, one behind the other.
pub open spec fn all_words(errors: Seq<Violation>) -> Seq<Mark>
    decreases errors.len(),
{
    if errors.len() == 0 {
        Seq::empty()
    } else {
        all_words(errors.drop_last()) + plain(" "@) + errors.last().words() + plain(";"@)
    }
}

impl ReloadError {
    /// The error in words.
    pub open spec fn words(&self) -> Seq<Mark> {
        match *self {
            ReloadError::Load(e) => plain("config load failed: "@) + e@.words(),
            ReloadError::Validation(errors) => plain("config validation failed:"@) + all_words(
                listed(errors@),
            ),
        }
    }

    /// The error in words.
    pub fn message(&self) -> (m: Vec<Glyph>)
        ensures
            shown(m@) == self.words(),
    {
        let mut m: Vec<Glyph> = Vec::new();
        match self {
            ReloadError::Load(e) => {
                put_text(&mut m, "config load failed: ");
                let words: Vec<Glyph> = e.message();
                put_glyphs(&mut m, &words);
                assert(shown(m@) =~= self.words());
            },
            ReloadError::Validation(errors) => {
                put_text(&mut m, "config validation failed:");
                let ghost all = listed(errors@);
                let ghost front = plain("config validation failed:"@);
                let mut i: usize = 0;
                assert(all.take(0) =~= Seq::<Violation>::empty());
                assert(shown(m@) =~= front + all_words(all.take(0)));
                while i < errors.len()
                    invariant
                        i <= errors@.len(),
                        all == listed(errors@),
                        shown(m@) == front + all_words(all.take(i as int)),
                    decreases errors@.len() - i,
                {
                    put_text(&mut m, " ");
                    let words: Vec<Glyph> = errors[i].message();
                    put_glyphs(&mut m, &words);
                    put_text(&mut m, ";");
                    proof {
                        let next = all.take(i + 1);
                        assert(next.drop_last() =~= all.take(i as int));
                        assert(next.last() == errors@[i as int]@);
                        assert(shown(m@) =~= front + all_words(next));
                    }
                    i = i + 1;
                }
                assert(all.take(all.len() as int) =~= all);
            },
        }
        m
    }
}

/// A new configuration, or why there is none: loaded, and nothing wrong with
/// it.
pub fn reload_config(
    path: &str,
    opened: Result<FileFacts, OpenError>,
    content: Result<Config, ContentError>,
) -> (r: Result<Config, ReloadError>)
    ensures
        match loaded(path@, opened, content) {
            Err(v) => r is Err && r->Err_0 is Load && r->Err_0->Load_0@ == v,
            Ok(config) => if violations(config).len() == 0 {
                r == Ok::<Config, ReloadError>(config)
            } else {
                r is Err && r->Err_0 is Validation && listed(r->Err_0->Validation_0@) == violations(
                    config,
                )
            },
        },
        r is Ok ==> sound(r->Ok_0),
{
    match load_config(path, opened, content) {
        Err(e) => Err(ReloadError::Load(e)),
        Ok(config) => {
            let errors: Vec<ValidationError> = validate(&config);
            assert(listed(errors@).len() == errors@.len());
            if errors.len() == 0 {
                proof {
                    law_nothing_wrong_means_sound(config);
                }
                Ok(config)
            } else {
                Err(ReloadError::Validation(errors))
            }
        },
    }
}

} // verus!

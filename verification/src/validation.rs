//! Validation of values that are stored in the database of the pipeline manager.

use vstd::prelude::*;
use vstd::string::*;

use crate::text::decimal;
use crate::text::decimal_text;

verus! {

/// Pattern that every name must adhere to.
pub const PATTERN_VALID_NAME: &'static str = "^[a-zA-Z0-9_-]+$";

/// Maximum name length, in characters.
pub const MAXIMUM_NAME_LENGTH: usize = 100;

/// Pattern that every tag must adhere to: one or more ASCII letters, digits, or
/// one of space, `.`, `_`, `/`, `|`, `\`, `:`, `=` and `-`.
pub const PATTERN_VALID_TAG: &'static str = "^[a-zA-Z0-9 ._/|\\\\:=-]+$";

/// Maximum length of a single tag, in characters.
pub const MAXIMUM_TAG_LENGTH: usize = 50;

/// Maximum number of tags a single pipeline may carry.
pub const MAXIMUM_TAGS_PER_PIPELINE: usize = 50;

/// Maximum length of a pipeline description, in characters.
pub const MAXIMUM_DESCRIPTION_LENGTH: usize = 300;

/// Rejections of values that were to be stored.
#[derive(Debug, Clone, PartialEq, Eq)]
pub enum DBError {
    EmptyName,
    TooLongName { name: String, length: usize, maximum: usize },
    NameDoesNotMatchPattern { name: String },
    TooLongDescription { length: usize, maximum: usize },
    TooManyTags { count: usize, maximum: usize },
    InvalidTag { tag: String, reason: String },
}

/// An ASCII letter or digit.
pub open spec fn is_alphanumeric(c: char) -> bool {
    'a' <= c <= 'z' || 'A' <= c <= 'Z' || '0' <= c <= '9'
}

/// A character that a name may hold.
pub open spec fn is_name_char(c: char) -> bool {
    is_alphanumeric(c) || c == '_' || c == '-'
}

/// A character that a tag may hold.
pub open spec fn is_tag_char(c: char) -> bool {
    ||| is_alphanumeric(c)
    ||| c == ' '
    ||| c == '.'
    ||| c == '_'
    ||| c == '/'
    ||| c == '|'
    ||| c == '\\'
    ||| c == ':'
    ||| c == '='
    ||| c == '-'
}

/// The text is not empty and holds only characters that a name may hold.
pub open spec fn is_name_text(text: Seq<char>) -> bool {
    text.len() > 0 && forall|i: int| 0 <= i < text.len() ==> is_name_char(#[trigger] text[i])
}

/// The text is not empty and holds only characters that a tag may hold.
pub open spec fn is_tag_text(text: Seq<char>) -> bool {
    text.len() > 0 && forall|i: int| 0 <= i < text.len() ==> is_tag_char(#[trigger] text[i])
}

/// `regex::Regex::new` of one of the two patterns above and `Regex::is_match` on
/// `text`. Both patterns are valid, and each is anchored at both ends: it matches
/// the texts that consist of one or more characters of its class.
#[verifier::external_body]
fn matches_pattern(pattern: &str, text: &str) -> (matched: bool)
    requires
        pattern@ == PATTERN_VALID_NAME@ || pattern@ == PATTERN_VALID_TAG@,
    ensures
        pattern@ == PATTERN_VALID_NAME@ ==> matched == is_name_text(text@),
        pattern@ == PATTERN_VALID_TAG@ ==> matched == is_tag_text(text@),
{
    regex::Regex::new(pattern).expect("pattern must be valid").is_match(text)
}

/// Checks whether the provided name is valid.
///
/// It cannot be empty, must be at most 100 characters long, and must contain only
/// ASCII letters, digits, underscores and hyphens.
pub fn validate_name(name: &str) -> (outcome: Result<(), DBError>)
    ensures
        match outcome {
            Ok(_) => name@.len() <= MAXIMUM_NAME_LENGTH && is_name_text(name@),
            Err(DBError::EmptyName) => name@.len() == 0,
            Err(DBError::TooLongName { name: given, length, maximum }) => name@.len()
                > MAXIMUM_NAME_LENGTH && given@ == name@ && length == name@.len() && maximum
                == MAXIMUM_NAME_LENGTH,
            Err(DBError::NameDoesNotMatchPattern { name: given }) => 0 < name@.len()
                <= MAXIMUM_NAME_LENGTH && !is_name_text(name@) && given@ == name@,
            Err(_) => false,
        },
        outcome is Ok <==> 1 <= name@.len() <= 100 && is_name_text(name@),
{
    let length: usize = name.unicode_len();
    if length == 0 {
        Err(DBError::EmptyName)
    } else if length > MAXIMUM_NAME_LENGTH {
        Err(DBError::TooLongName { name: name.to_owned(), length, maximum: MAXIMUM_NAME_LENGTH })
    } else if matches_pattern(PATTERN_VALID_NAME, name) {
        Ok(())
    } else {
        Err(DBError::NameDoesNotMatchPattern { name: name.to_owned() })
    }
}

/// Checks whether the provided description is valid: it must be at most
/// [`MAXIMUM_DESCRIPTION_LENGTH`] characters long. The content is otherwise
/// free-form.
pub fn validate_description(description: &str) -> (outcome: Result<(), DBError>)
    ensures
        match outcome {
            Ok(_) => description@.len() <= MAXIMUM_DESCRIPTION_LENGTH,
            Err(DBError::TooLongDescription { length, maximum }) => description@.len()
                > MAXIMUM_DESCRIPTION_LENGTH && length == description@.len() && maximum
                == MAXIMUM_DESCRIPTION_LENGTH,
            Err(_) => false,
        },
        outcome is Ok <==> description@.len() <= 300,
{
    let length: usize = description.unicode_len();
    if length > MAXIMUM_DESCRIPTION_LENGTH {
        Err(DBError::TooLongDescription { length, maximum: MAXIMUM_DESCRIPTION_LENGTH })
    } else {
        Ok(())
    }
}

/// Why a tag is not valid, if it is not.
pub open spec fn tag_problem(tag: Seq<char>) -> Option<Seq<char>> {
    if tag.len() == 0 {
        Some("it cannot be empty"@)
    } else if tag.len() > MAXIMUM_TAG_LENGTH {
        Some(
            "it is "@ + decimal(tag.len()) + " characters long, but the maximum is "@ + decimal(
                MAXIMUM_TAG_LENGTH as nat,
            ),
        )
    } else if !is_tag_text(tag) {
        Some(
            "it may contain only ASCII letters (a-z, A-Z), numbers (0-9), or one of space, '.', '_', '/', '|', '\\', ':', '=' and '-'"@,
        )
    } else {
        None
    }
}

/// Why a tag is not valid, if it is not.
fn check_tag(tag: &str) -> (problem: Option<String>)
    ensures
        match problem {
            Some(reason) => tag_problem(tag@) == Some(reason@),
            None => tag_problem(tag@) is None,
        },
{
    let length: usize = tag.unicode_len();
    if length == 0 {
        Some("it cannot be empty".to_owned())
    } else if length > MAXIMUM_TAG_LENGTH {
        let mut reason = "it is ".to_owned();
        reason.append(decimal_text(length as u64).as_str());
        reason.append(" characters long, but the maximum is ");
        reason.append(decimal_text(MAXIMUM_TAG_LENGTH as u64).as_str());
        Some(reason)
    } else if !matches_pattern(PATTERN_VALID_TAG, tag) {
        Some(
            "it may contain only ASCII letters (a-z, A-Z), numbers (0-9), or one of space, '.', '_', '/', '|', '\\', ':', '=' and '-'".to_owned(),
        )
    } else {
        None
    }
}

/// Checks whether the provided tags are valid. There may be at most
/// [`MAXIMUM_TAGS_PER_PIPELINE`] tags, and each tag cannot be empty, must be at
/// most [`MAXIMUM_TAG_LENGTH`] characters long, and must contain only ASCII
/// letters, digits, or one of space, `.`, `_`, `/`, `|`, `\`, `:`, `=` and `-`.
/// The first tag that is not valid is reported.
pub fn validate_tags(tags: &[String]) -> (outcome: Result<(), DBError>)
    ensures
        match outcome {
            Ok(_) => tags@.len() <= MAXIMUM_TAGS_PER_PIPELINE && forall|i: int|
                0 <= i < tags@.len() ==> tag_problem((#[trigger] tags@[i])@) is None,
            Err(DBError::TooManyTags { count, maximum }) => tags@.len() > MAXIMUM_TAGS_PER_PIPELINE
                && count == tags@.len() && maximum == MAXIMUM_TAGS_PER_PIPELINE,
            Err(DBError::InvalidTag { tag, reason }) => tags@.len() <= MAXIMUM_TAGS_PER_PIPELINE
                && exists|k: int|
                {
                    &&& 0 <= k < tags@.len()
                    &&& (#[trigger] tags@[k])@ == tag@
                    &&& tag_problem(tag@) == Some(reason@)
                    &&& forall|i: int|
                        0 <= i < k ==> tag_problem((#[trigger] tags@[i])@) is None
                },
            Err(_) => false,
        },
        outcome is Ok ==> tags@.len() <= 50,
        outcome matches Err(DBError::TooManyTags { .. }) ==> tags@.len() > 50,
{
    if tags.len() > MAXIMUM_TAGS_PER_PIPELINE {
        return Err(
            DBError::TooManyTags { count: tags.len(), maximum: MAXIMUM_TAGS_PER_PIPELINE },
        );
    }
    let mut i: usize = 0;
    while i < tags.len()
        invariant
            i <= tags@.len() <= MAXIMUM_TAGS_PER_PIPELINE,
            forall|k: int| 0 <= k < i ==> tag_problem((#[trigger] tags@[k])@) is None,
        decreases tags@.len() - i,
    {
        if let Some(reason) = check_tag(tags[i].as_str()) {
            return Err(DBError::InvalidTag { tag: tags[i].clone(), reason });
        }
        i += 1;
    }
    Ok(())
}

/// Errors that can happen when turning a stored value into its actual object and
/// validating that.
#[derive(Debug, Clone, PartialEq, Eq)]
pub enum ValidationError {
    DeserializationFailed(String),
    EnterpriseFeature(String),
    InvalidPipelineEnv(String),
}

impl ValidationError {
    /// The text of the error.
    pub fn message(&self) -> (text: String)
        ensures
            text@ == match *self {
                ValidationError::DeserializationFailed(e) => "could not deserialize due to: "@ + e@,
                ValidationError::EnterpriseFeature(e) => "enterprise feature: "@ + e@,
                ValidationError::InvalidPipelineEnv(e) => "invalid pipeline environment: "@ + e@,
            },
    {
        let (prefix, detail) = match self {
            ValidationError::DeserializationFailed(e) => ("could not deserialize due to: ", e),
            ValidationError::EnterpriseFeature(e) => ("enterprise feature: ", e),
            ValidationError::InvalidPipelineEnv(e) => ("invalid pipeline environment: ", e),
        };
        let mut text = prefix.to_owned();
        text.append(detail.as_str());
        text
    }
}

/// A stored value that was turned into its actual object.
#[derive(Debug)]
pub struct Deserialized<T> {
    pub value: T,
    /// Fault tolerance is enabled.
    pub fault_tolerant: bool,
    /// What the check of the pipeline environment came to.
    pub env: Result<(), String>,
}

/// Validates a runtime configuration, which may ask for fault tolerance only in
/// the enterprise edition.
pub fn validate_runtime_config<T>(
    deserialized: Result<Deserialized<T>, String>,
    enterprise: bool,
) -> (outcome: Result<T, ValidationError>)
    ensures
        match deserialized {
            Err(e) => outcome == Err::<T, ValidationError>(
                ValidationError::DeserializationFailed(e),
            ),
            Ok(d) => if d.fault_tolerant && !enterprise {
                outcome matches Err(ValidationError::EnterpriseFeature(f)) && f@
                    == "fault tolerance"@
            } else {
                outcome == match d.env {
                    Err(e) => Err(ValidationError::InvalidPipelineEnv(e)),
                    Ok(_) => Ok(d.value),
                }
            },
        },
{
    match deserialized {
        Err(e) => Err(ValidationError::DeserializationFailed(e)),
        Ok(d) => {
            if d.fault_tolerant && !enterprise {
                return Err(ValidationError::EnterpriseFeature("fault tolerance".to_owned()));
            }
            match d.env {
                Err(e) => Err(ValidationError::InvalidPipelineEnv(e)),
                Ok(_) => Ok(d.value),
            }
        },
    }
}

/// Validates a deployment configuration.
pub fn validate_deployment_config<T>(deserialized: Result<Deserialized<T>, String>) -> (outcome:
    Result<T, ValidationError>)
    ensures
        outcome == match deserialized {
            Err(e) => Err(ValidationError::DeserializationFailed(e)),
            Ok(d) => match d.env {
                Err(e) => Err(ValidationError::InvalidPipelineEnv(e)),
                Ok(_) => Ok(d.value),
            },
        },
{
    match deserialized {
        Err(e) => Err(ValidationError::DeserializationFailed(e)),
        Ok(d) => match d.env {
            Err(e) => Err(ValidationError::InvalidPipelineEnv(e)),
            Ok(_) => Ok(d.value),
        },
    }
}

/// What a stored value comes to that needs no validation beyond its
/// deserialization.
fn deserialized_or_error<T>(deserialized: Result<T, String>) -> (outcome: Result<
    T,
    ValidationError,
>)
    ensures
        outcome == match deserialized {
            Err(e) => Err(ValidationError::DeserializationFailed(e)),
            Ok(value) => Ok(value),
        },
{
    match deserialized {
        Err(e) => Err(ValidationError::DeserializationFailed(e)),
        Ok(value) => Ok(value),
    }
}

/// Validates a program configuration.
pub fn validate_program_config<T>(deserialized: Result<T, String>) -> (outcome: Result<
    T,
    ValidationError,
>)
    ensures
        outcome == match deserialized {
            Err(e) => Err(ValidationError::DeserializationFailed(e)),
            Ok(value) => Ok(value),
        },
{
    deserialized_or_error(deserialized)
}

/// Validates program information.
pub fn validate_program_info<T>(deserialized: Result<T, String>) -> (outcome: Result<
    T,
    ValidationError,
>)
    ensures
        outcome == match deserialized {
            Err(e) => Err(ValidationError::DeserializationFailed(e)),
            Ok(value) => Ok(value),
        },
{
    deserialized_or_error(deserialized)
}

/// Validates storage status details.
pub fn validate_storage_status_details<T>(deserialized: Result<T, String>) -> (outcome: Result<
    T,
    ValidationError,
>)
    ensures
        outcome == match deserialized {
            Err(e) => Err(ValidationError::DeserializationFailed(e)),
            Ok(value) => Ok(value),
        },
{
    deserialized_or_error(deserialized)
}

/// A name may hold the ASCII letters and digits, the underscore and the hyphen: 64
/// characters, by their code points.
pub proof fn characters_of_names(c: char)
    ensures
        is_name_char(c) <==> ({
            let n = c as u32;
            48 <= n <= 57 || 65 <= n <= 90 || 97 <= n <= 122 || n == 95 || n == 45
        }),
{
}

/// A tag may hold what a name may hold, and besides the blank, `.`, `/`, `:`, `=`, `\` and
/// `|`, by their code points.
pub proof fn characters_of_tags(c: char)
    ensures
        is_tag_char(c) <==> ({
            let n = c as u32;
            ||| 48 <= n <= 57 || 65 <= n <= 90 || 97 <= n <= 122 || n == 95 || n == 45
            ||| n == 32 || n == 46 || n == 47 || n == 58 || n == 61 || n == 92 || n == 124
        }),
{
}

/// A text can be a name, or a tag, exactly if it is not empty and each of its characters
/// is allowed.
pub proof fn texts_are_checked_character_by_character(a: Seq<char>, b: Seq<char>, c: char)
    ensures
        !is_name_text(Seq::empty()) && !is_tag_text(Seq::empty()),
        is_name_text(seq![c]) <==> is_name_char(c),
        is_tag_text(seq![c]) <==> is_tag_char(c),
        a.len() > 0 && b.len() > 0 ==> (is_name_text(a + b) <==> is_name_text(a) && is_name_text(
            b,
        )),
        a.len() > 0 && b.len() > 0 ==> (is_tag_text(a + b) <==> is_tag_text(a) && is_tag_text(b)),
{
    assert(seq![c][0] == c);
    let both = a + b;
    assert forall|i: int| 0 <= i < a.len() implies both[i] == #[trigger] a[i] by {}
    assert forall|i: int| 0 <= i < b.len() implies both[a.len() + i] == #[trigger] b[i] by {}
}

/// The limits: a name has at most 100 characters, a tag at most 50, a description at
/// most 300, and a pipeline has at most 50 tags.
pub proof fn limits_of_stored_values()
    ensures
        MAXIMUM_NAME_LENGTH == 100,
        MAXIMUM_TAG_LENGTH == 50,
        MAXIMUM_TAGS_PER_PIPELINE == 50,
        MAXIMUM_DESCRIPTION_LENGTH == 300,
        PATTERN_VALID_NAME@ == "^[a-zA-Z0-9_-]+$"@,
        PATTERN_VALID_TAG@ == "^[a-zA-Z0-9 ._/|\\\\:=-]+$"@,
{
}

/// A tag is valid exactly if it has 1 to 50 characters, all of which a tag may hold. Of
/// the reasons for which one is not, an empty text comes first, then its length.
pub proof fn valid_tags(tag: Seq<char>)
    ensures
        tag_problem(tag) is None <==> 1 <= tag.len() <= 50 && is_tag_text(tag),
        tag.len() == 0 ==> tag_problem(tag) == Some("it cannot be empty"@),
        tag.len() > 50 ==> tag_problem(tag) == Some(
            "it is "@ + decimal(tag.len()) + " characters long, but the maximum is "@ + decimal(50),
        ),
        1 <= tag.len() <= 50 && !is_tag_text(tag) ==> tag_problem(tag) == Some(
            "it may contain only ASCII letters (a-z, A-Z), numbers (0-9), or one of space, '.', '_', '/', '|', '\\', ':', '=' and '-'"@,
        ),
{
}

} // verus!

use vstd::prelude::*;
use crate::codec::permissions_of_yaml;
use crate::error::{Input, Reason, ReasonModel, TokenError, TokenErrorModel};
use crate::options::{OptionsModel, TargetModel, TokenOptions};
use crate::permissions::Permissions;
use crate::secret::SecretText;
use crate::text::text_of;
use crate::wire::{parse_decimal, unsigned_of};

verus! {

/// The inputs as the runner hands them over: each one the text that was given, or
/// nothing where none was. A text without a character counts as none, for the runner
/// hands over an empty text where an input was not set. The inputs have no debug form:
/// the key is among them.
pub struct Inputs {
    pub repository: Option<String>,
    pub app_id: Option<String>,
    pub app_pk: Option<String>,
    pub permissions: Option<String>,
    pub duration: Option<String>,
}

/// What `Inputs` stand for.
pub struct InputsModel {
    pub repository: Option<Seq<char>>,
    pub app_id: Option<Seq<char>>,
    pub app_pk: Option<Seq<char>>,
    pub permissions: Option<Seq<char>>,
    pub duration: Option<Seq<char>>,
}

impl View for Inputs {
    type V = InputsModel;

    open spec fn view(&self) -> InputsModel {
        InputsModel {
            repository: text_of(self.repository),
            app_id: text_of(self.app_id),
            app_pk: text_of(self.app_pk),
            permissions: text_of(self.permissions),
            duration: text_of(self.duration),
        }
    }
}

/// What is to be done once the inputs were taken: the credentials of the app and the
/// options of the token.
#[derive(Debug)]
pub struct Job {
    pub app_id: SecretText,
    pub app_pk: SecretText,
    pub options: TokenOptions,
}

/// What a `Job` stands for.
pub struct JobModel {
    pub app_id: Seq<char>,
    pub app_pk: Seq<char>,
    pub options: OptionsModel,
}

impl View for Job {
    type V = JobModel;

    open spec fn view(&self) -> JobModel {
        JobModel { app_id: self.app_id@, app_pk: self.app_pk@, options: self.options@ }
    }
}

/// The text of an input that was set: an input without a character was not.
pub open spec fn set(text: Option<Seq<char>>) -> Option<Seq<char>> {
    match text {
        Some(held) => if held.len() > 0 {
            Some(held)
        } else {
            None
        },
        None => None,
    }
}

impl InputsModel {
    /// The first of the required inputs that is missing.
    pub open spec fn missing(self) -> Option<Input> {
        if set(self.repository) is None {
            Some(Input::Repository)
        } else if set(self.app_id) is None {
            Some(Input::AppId)
        } else if set(self.app_pk) is None {
            Some(Input::AppKey)
        } else {
            None
        }
    }

    /// The options for the repository, once the permissions were read where some were
    /// given; or the error that the permissions are refused with.
    pub open spec fn narrowed(self) -> Result<OptionsModel, TokenErrorModel> {
        let options = OptionsModel::initial(TargetModel::Repository(self.repository->0));
        match set(self.permissions) {
            None => Ok(options),
            Some(text) => match permissions_of_yaml(text) {
                Ok(permissions) => Ok(options.set_permissions(permissions)),
                Err(error) => Err(error),
            },
        }
    }

    /// The job that the inputs ask for, or the error that they are refused with: a
    /// required input that is missing comes first, then the permissions, then the
    /// duration.
    pub open spec fn job(self) -> Result<JobModel, TokenErrorModel> {
        match self.missing() {
            Some(input) => Err(TokenErrorModel::MissingInput(input)),
            None => match self.narrowed() {
                Err(error) => Err(error),
                Ok(options) => match set(self.duration) {
                    None => Ok(
                        JobModel { app_id: self.app_id->0, app_pk: self.app_pk->0, options },
                    ),
                    Some(text) => match unsigned_of(text) {
                        Some(minutes) => Ok(
                            JobModel {
                                app_id: self.app_id->0,
                                app_pk: self.app_pk->0,
                                options: options.set_duration(minutes as nat),
                            },
                        ),
                        None => Err(
                            TokenErrorModel::InvalidInput(
                                Input::Duration,
                                ReasonModel::Unreadable,
                            ),
                        ),
                    },
                },
            },
        }
    }
}

/// Inputs whose permissions are refused make no job: where nothing required is missing,
/// the error is that of the permissions, whatever the other inputs hold.
pub proof fn lemma_refused_permissions_make_no_job(inputs: InputsModel)
    requires
        inputs.missing() is None,
        set(inputs.permissions) is Some,
        permissions_of_yaml(set(inputs.permissions)->0) is Err,
    ensures
        inputs.job() == Err::<JobModel, _>(permissions_of_yaml(set(inputs.permissions)->0)->Err_0),
        inputs.job() matches Err(TokenErrorModel::InvalidInput(input, _)) && input
            == Input::Permissions,
{
}

/// What a planned job or its refusal stands for.
pub open spec fn planned_model(planned: Result<Job, TokenError>) -> Result<
    JobModel,
    TokenErrorModel,
> {
    match planned {
        Ok(job) => Ok(job@),
        Err(error) => Err(error@),
    }
}

/// Takes an input as set where it holds a character.
pub fn input_set(text: Option<String>) -> (held: Option<String>)
    ensures
        text_of(held) == set(text_of(text)),
{
    match text {
        Some(held) => if held.as_str().is_empty() {
            None
        } else {
            Some(held)
        },
        None => None,
    }
}

/// Takes the inputs to the job that they ask for.
pub fn plan(inputs: Inputs) -> (planned: Result<Job, TokenError>)
    ensures
        planned_model(planned) == inputs@.job(),
{
    let Inputs { repository, app_id, app_pk, permissions, duration } = inputs;
    let repository = input_set(repository);
    let app_id = input_set(app_id);
    let app_pk = input_set(app_pk);
    let permissions = input_set(permissions);
    let duration = input_set(duration);
    let repository = match repository {
        Some(repository) => repository,
        None => {
            return Err(TokenError::MissingInput(Input::Repository));
        },
    };
    let app_id = match app_id {
        Some(app_id) => app_id,
        None => {
            return Err(TokenError::MissingInput(Input::AppId));
        },
    };
    let app_pk = match app_pk {
        Some(app_pk) => app_pk,
        None => {
            return Err(TokenError::MissingInput(Input::AppKey));
        },
    };
    let mut options = TokenOptions::repository(repository.as_str());
    match permissions {
        Some(text) => match Permissions::from_yaml(text.as_str()) {
            Ok(permissions) => {
                options = options.with_permissions(permissions);
            },
            Err(error) => {
                return Err(error);
            },
        },
        None => {},
    }
    match duration {
        Some(text) => match parse_decimal(text.as_str()) {
            Some(minutes) => {
                options = options.with_duration(minutes);
            },
            None => {
                return Err(TokenError::InvalidInput(Input::Duration, Reason::Unreadable));
            },
        },
        None => {},
    }
    Ok(Job { app_id: SecretText::new(app_id), app_pk: SecretText::new(app_pk), options })
}

} // verus!

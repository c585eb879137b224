//! Effective values: what a run uses once the service's overrides have been
//! laid over the environment's defaults.

use vstd::prelude::*;
use vstd::string::StringExecFns;
use crate::error::{ConfigError, Entity, ErrorView, Grammar, invalid_input, is_unmet, unmet};
use crate::model::{
    Config, Environment, Service, Setting, SettingsView, Volume, VolumeView, entries_view,
    volumes_view,
};
use crate::strmap::StrMap;
use crate::text::{
    concat3, lowercase_text, lowercased, replace_all, replaced, same_text, trim_blank, trim_line,
};

verus! {

/// The words that switch a flag on.
pub open spec fn is_true_word(v: Seq<char>) -> bool {
    v == "true"@ || v == "1"@ || v == "yes"@ || v == "y"@ || v == "on"@
}

/// The words that switch a flag off.
pub open spec fn is_false_word(v: Seq<char>) -> bool {
    v == "false"@ || v == "0"@ || v == "no"@ || v == "n"@ || v == "off"@
}

/// The flag that the normalised word `word` stands for; any other word is
/// invalid input, reported with the text as it was given.
pub open spec fn flag_of(word: Seq<char>, given: Seq<char>) -> Result<bool, ErrorView> {
    if is_true_word(word) {
        Ok(true)
    } else if is_false_word(word) {
        Ok(false)
    } else {
        Err(ErrorView::InvalidInput { value: given, grammar: Grammar::Flag })
    }
}

/// `r` is the result `want`, errors taken by their view.
pub open spec fn is_result<T>(r: Result<T, ConfigError>, want: Result<T, ErrorView>) -> bool {
    match want {
        Ok(v) => r == Ok::<T, ConfigError>(v),
        Err(e) => r is Err && r->Err_0@ == e,
    }
}

/// Reads a flag from a word that is already trimmed and in lower case.
pub fn read_flag(word: &str, given: &str) -> (r: Result<bool, ConfigError>)
    ensures
        is_result(r, flag_of(word@, given@)),
{
    if same_text(word, "true") || same_text(word, "1") || same_text(word, "yes") || same_text(
        word,
        "y",
    ) || same_text(word, "on") {
        Ok(true)
    } else if same_text(word, "false") || same_text(word, "0") || same_text(word, "no")
        || same_text(word, "n") || same_text(word, "off") {
        Ok(false)
    } else {
        Err(invalid_input(given, Grammar::Flag))
    }
}

/// The view of a service that may be missing.
pub open spec fn view_of_service(o: Option<&Service>) -> Option<SettingsView> {
    match o {
        Some(s) => Some(s@),
        None => None,
    }
}

/// The view of an environment that may be missing.
pub open spec fn view_of_environment(o: Option<&Environment>) -> Option<SettingsView> {
    match o {
        Some(e) => Some(e@),
        None => None,
    }
}

/// A text setting as the run sees it: the service's value where the service
/// has one, else the environment's.
pub open spec fn effective_setting(
    service: Option<SettingsView>,
    environment: Option<SettingsView>,
    which: Setting,
) -> Option<Seq<char>> {
    if service is Some && service->0.setting(which) is Some {
        service->0.setting(which)
    } else if environment is Some {
        environment->0.setting(which)
    } else {
        None
    }
}

/// The volumes as the run sees them: the service's list where the service
/// has one, even an empty one, else the environment's. The two are never
/// merged.
pub open spec fn effective_volumes(
    service: Option<SettingsView>,
    environment: Option<SettingsView>,
) -> Option<Seq<VolumeView>> {
    if service is Some && service->0.volumes is Some {
        service->0.volumes
    } else if environment is Some {
        environment->0.volumes
    } else {
        None
    }
}

/// The port mappings as the run sees them: the service's table where the
/// service has one, else the environment's.
pub open spec fn effective_ports(
    service: Option<SettingsView>,
    environment: Option<SettingsView>,
) -> Option<Seq<(Seq<char>, Seq<char>)>> {
    if service is Some && service->0.host_portmappings is Some {
        service->0.host_portmappings
    } else if environment is Some {
        environment->0.host_portmappings
    } else {
        None
    }
}

/// The image to run: the tag alone, or `repository:tag` where a repository
/// is set.
pub open spec fn image_name(
    service: Option<SettingsView>,
    environment: Option<SettingsView>,
    tag: Seq<char>,
) -> Seq<char> {
    match effective_setting(service, environment, Setting::ImageRepository) {
        Some(repo) => repo + ":"@ + tag,
        None => tag,
    }
}

/// The image tag to start from: the one given on the command line, else the
/// service's default, else the environment's.
pub open spec fn base_image(
    cli_image: Option<Seq<char>>,
    service: Option<SettingsView>,
    environment: Option<SettingsView>,
) -> Option<Seq<char>> {
    match cli_image {
        Some(i) => Some(i),
        None => effective_setting(service, environment, Setting::DefaultContainerImage),
    }
}

/// A host path template with `{pwd}` and then `{home}` filled in.
pub open spec fn host_path(template: Seq<char>, current_dir: Seq<char>, home: Seq<char>) -> Seq<
    char,
> {
    replaced(replaced(template, "{pwd}"@, current_dir), "{home}"@, home)
}

/// The text of a string that may be missing.
pub open spec fn text_of(o: Option<&String>) -> Option<Seq<char>> {
    match o {
        Some(s) => Some(s@),
        None => None,
    }
}

/// The text of a string slice that may be missing.
pub open spec fn str_of(o: Option<&str>) -> Option<Seq<char>> {
    match o {
        Some(s) => Some(s@),
        None => None,
    }
}

impl Service {
    /// The value of one of the four text settings.
    pub fn setting(&self, which: Setting) -> (r: Option<&String>)
        ensures
            text_of(r) == self@.setting(which),
    {
        match which {
            Setting::ServeCommand => self.serve_command.as_ref(),
            Setting::ImageRepository => self.image_repository.as_ref(),
            Setting::Platform => self.platform.as_ref(),
            Setting::DefaultContainerImage => self.default_container_image.as_ref(),
        }
    }
}

impl Environment {
    /// The value of one of the four text settings.
    pub fn setting(&self, which: Setting) -> (r: Option<&String>)
        ensures
            text_of(r) == self@.setting(which),
    {
        match which {
            Setting::ServeCommand => self.serve_command.as_ref(),
            Setting::ImageRepository => self.image_repository.as_ref(),
            Setting::Platform => self.platform.as_ref(),
            Setting::DefaultContainerImage => self.default_container_image.as_ref(),
        }
    }
}

/// Resolves one text setting: the service overrides the environment.
pub fn resolve_setting<'a>(
    service: Option<&'a Service>,
    environment: Option<&'a Environment>,
    which: Setting,
) -> (r: Option<&'a String>)
    ensures
        text_of(r) == effective_setting(
            view_of_service(service),
            view_of_environment(environment),
            which,
        ),
{
    let own = match service {
        Some(s) => s.setting(which),
        None => None,
    };
    match own {
        Some(v) => Some(v),
        None => match environment {
            Some(e) => e.setting(which),
            None => None,
        },
    }
}

/// Resolves the volumes: a service that lists volumes hides the
/// environment's.
pub fn resolve_volumes<'a>(service: Option<&'a Service>, environment: Option<&'a Environment>) -> (r:
    Option<&'a Vec<Volume>>)
    ensures
        match r {
            Some(v) => Some(volumes_view(v@)),
            None => None,
        } == effective_volumes(view_of_service(service), view_of_environment(environment)),
{
    let own = match service {
        Some(s) => s.volumes.as_ref(),
        None => None,
    };
    match own {
        Some(v) => Some(v),
        None => match environment {
            Some(e) => e.volumes.as_ref(),
            None => None,
        },
    }
}

/// Resolves the port mappings: a service that has a table hides the
/// environment's.
pub fn resolve_ports<'a>(service: Option<&'a Service>, environment: Option<&'a Environment>) -> (r:
    Option<&'a StrMap<String>>)
    ensures
        match r {
            Some(m) => Some(entries_view(m@)),
            None => None,
        } == effective_ports(view_of_service(service), view_of_environment(environment)),
{
    let own = match service {
        Some(s) => s.host_portmappings.as_ref(),
        None => None,
    };
    match own {
        Some(m) => Some(m),
        None => match environment {
            Some(e) => e.host_portmappings.as_ref(),
            None => None,
        },
    }
}

/// What to tell a user who gave no image where none is configured: the two
/// commands that configure one.
pub open spec fn image_advice(
    environment_name: Option<Seq<char>>,
    domain: Seq<char>,
    folder: Seq<char>,
    command: Seq<char>,
) -> Seq<char> {
    "No container image provided for '"@ + domain + "."@ + folder + (match environment_name {
        Some(e) => "' in environment '"@ + e + "'.\n"@,
        None => "'.\n"@,
    }) + "Either pass an explicit image to 'darp "@ + command
        + "' or configure a default_container_image:\ndarp config set svc default-container-image "@
        + domain + " "@ + folder + " <image>\nor\ndarp config set env default-container-image "@
        + (match environment_name {
        Some(e) => e,
        None => "<env>"@,
    }) + " <image>"@
}

/// What to tell a user who serves where no serve command is configured: the
/// two commands that configure one.
pub open spec fn serve_advice(domain: Seq<char>, folder: Seq<char>, environment_name: Seq<char>) -> Seq<
    char,
> {
    "Neither service '"@ + domain + "."@ + folder + "' nor environment '"@ + environment_name
        + "' has a serve_command configured.\nUse 'darp config set svc serve-command "@ + domain
        + " "@ + folder + " <cmd>' or 'darp config set env serve-command "@ + environment_name
        + " <cmd>' first."@
}

/// Writes the advice for a run without an image.
pub fn image_advice_text(
    environment_name: Option<&str>,
    domain: &str,
    folder: &str,
    command: &str,
) -> (r: String)
    ensures
        r@ == image_advice(str_of(environment_name), domain@, folder@, command@),
{
    let mut out = String::from_str("No container image provided for '");
    out.append(domain);
    out.append(".");
    out.append(folder);
    match environment_name {
        Some(e) => {
            out.append("' in environment '");
            out.append(e);
            out.append("'.\n");
        },
        None => {
            out.append("'.\n");
        },
    }
    out.append("Either pass an explicit image to 'darp ");
    out.append(command);
    out.append(
        "' or configure a default_container_image:\ndarp config set svc default-container-image ",
    );
    out.append(domain);
    out.append(" ");
    out.append(folder);
    out.append(" <image>\nor\ndarp config set env default-container-image ");
    match environment_name {
        Some(e) => {
            out.append(e);
        },
        None => {
            out.append("<env>");
        },
    }
    out.append(" <image>");
    assert(out@ =~= image_advice(str_of(environment_name), domain@, folder@, command@));
    out
}

/// Writes the advice for serving without a serve command.
pub fn serve_advice_text(domain: &str, folder: &str, environment_name: &str) -> (r: String)
    ensures
        r@ == serve_advice(domain@, folder@, environment_name@),
{
    let mut out = String::from_str("Neither service '");
    out.append(domain);
    out.append(".");
    out.append(folder);
    out.append("' nor environment '");
    out.append(environment_name);
    out.append("' has a serve_command configured.\nUse 'darp config set svc serve-command ");
    out.append(domain);
    out.append(" ");
    out.append(folder);
    out.append(" <cmd>' or 'darp config set env serve-command ");
    out.append(environment_name);
    out.append(" <cmd>' first.");
    assert(out@ =~= serve_advice(domain@, folder@, environment_name@));
    out
}

/// Resolves the image tag to start from. With no tag on the command line and
/// no default in either tier there is nothing to run, and the error names
/// the two commands that would configure a default.
pub fn resolve_base_image(
    cli_image: Option<&str>,
    environment: Option<&Environment>,
    service: Option<&Service>,
    environment_name: Option<&str>,
    domain_name: &str,
    service_folder_name: &str,
    command_name: &str,
) -> (r: Result<String, ConfigError>)
    ensures
        match base_image(
            str_of(cli_image),
            view_of_service(service),
            view_of_environment(environment),
        ) {
            Some(i) => r is Ok && r->Ok_0@ == i,
            None => is_unmet(
                r,
                Entity::Image,
                image_advice(
                    str_of(environment_name),
                    domain_name@,
                    service_folder_name@,
                    command_name@,
                ),
            ),
        },
{
    match cli_image {
        Some(i) => Ok(String::from_str(i)),
        None => match resolve_setting(service, environment, Setting::DefaultContainerImage) {
            Some(i) => Ok(i.clone()),
            None => {
                let detail = image_advice_text(
                    environment_name,
                    domain_name,
                    service_folder_name,
                    command_name,
                );
                Err(unmet(Entity::Image, detail.as_str()))
            },
        },
    }
}

impl Config {
    /// Reads a flag: `true`, `1`, `yes`, `y` and `on` switch on, `false`,
    /// `0`, `no`, `n` and `off` switch off, in any case and with white space
    /// around them.
    pub fn parse_bool(&self, s: &str) -> (r: Result<bool, ConfigError>)
        ensures
            is_result(r, flag_of(lowercased(trim_blank(s@)), s@)),
    {
        let trimmed = trim_line(s);
        let word = lowercase_text(trimmed.as_str());
        read_flag(word.as_str(), s)
    }

    /// Fills the tokens `{pwd}` and `{home}` of a volume's host path in.
    pub fn resolve_host_path(&self, template: &str, current_dir: &str, home: &str) -> (r: String)
        ensures
            r@ == host_path(template@, current_dir@, home@),
    {
        let s = replace_all(template, "{pwd}", current_dir);
        replace_all(s.as_str(), "{home}", home)
    }

    /// Names the image to run for the tag `cli_image`.
    pub fn resolve_image_name(
        &self,
        environment: Option<&Environment>,
        service: Option<&Service>,
        cli_image: &str,
    ) -> (r: String)
        ensures
            r@ == image_name(
                view_of_service(service),
                view_of_environment(environment),
                cli_image@,
            ),
    {
        match resolve_setting(service, environment, Setting::ImageRepository) {
            Some(repo) => concat3(repo.as_str(), ":", cli_image),
            None => String::from_str(cli_image),
        }
    }
}

} // verus!

//! The report of one error, and how it is put together from what the
//! deployment configured and what the error says of itself.

use vstd::prelude::*;

verus! {

/// One error as the tracker is told of it.
#[derive(Clone, Debug)]
pub struct ErrbitError {
    /// The credential of the application at the tracker.
    pub api_key: String,
    /// The deployment stage, such as `production`.
    pub environment: String,
    pub app_name: String,
    /// The version of the notifier.
    pub version: String,
    /// Where the reporting instance can be found.
    pub source_url: String,
    pub node_name: String,
    pub component_name: String,
    pub exc_class: String,
    pub message: String,
    /// The stack, innermost frame first: file name, line, function and
    /// source text of each frame. The source text is kept but never sent.
    pub backtrace: Option<Vec<(String, u32, String, String)>>,
}

/// One frame of a stack as a mathematical value.
pub struct FrameView {
    pub filename: Seq<char>,
    pub line: u32,
    pub function: Seq<char>,
    pub text: Seq<char>,
}

/// A report as a mathematical value.
pub struct ReportView {
    pub api_key: Seq<char>,
    pub environment: Seq<char>,
    pub app_name: Seq<char>,
    pub version: Seq<char>,
    pub source_url: Seq<char>,
    pub node_name: Seq<char>,
    pub component_name: Seq<char>,
    pub exc_class: Seq<char>,
    pub message: Seq<char>,
    pub backtrace: Option<Seq<FrameView>>,
}

impl ReportView {
    /// The frames of the report; a report without a backtrace has none.
    pub open spec fn frames(self) -> Seq<FrameView> {
        match self.backtrace {
            Some(frames) => frames,
            None => Seq::empty(),
        }
    }
}

/// The frame that a tuple of the backtrace stands for.
pub open spec fn frame_view(frame: (String, u32, String, String)) -> FrameView {
    FrameView { filename: frame.0@, line: frame.1, function: frame.2@, text: frame.3@ }
}

/// The frames that a vector of the backtrace stands for, in its order.
pub open spec fn frames_view(frames: Seq<(String, u32, String, String)>) -> Seq<FrameView> {
    Seq::new(frames.len(), |i: int| frame_view(frames[i]))
}

impl View for ErrbitError {
    type V = ReportView;

    open spec fn view(&self) -> ReportView {
        ReportView {
            api_key: self.api_key@,
            environment: self.environment@,
            app_name: self.app_name@,
            version: self.version@,
            source_url: self.source_url@,
            node_name: self.node_name@,
            component_name: self.component_name@,
            exc_class: self.exc_class@,
            message: self.message@,
            backtrace: match self.backtrace {
                Some(frames) => Some(frames_view(frames@)),
                None => None,
            },
        }
    }
}

/// What the deployment says of itself. A field that is `None` was not
/// configured.
#[derive(Clone, Debug)]
pub struct NotifierConfig {
    pub environment: Option<String>,
    pub app_name: Option<String>,
    pub node_name: Option<String>,
    pub component_name: Option<String>,
    pub source_url: Option<String>,
}

/// A configuration as a mathematical value.
pub struct ConfigView {
    pub environment: Option<Seq<char>>,
    pub app_name: Option<Seq<char>>,
    pub node_name: Option<Seq<char>>,
    pub component_name: Option<Seq<char>>,
    pub source_url: Option<Seq<char>>,
}

/// The text of a setting, where it was made.
pub open spec fn setting_view(setting: Option<String>) -> Option<Seq<char>> {
    match setting {
        Some(text) => Some(text@),
        None => None,
    }
}

impl View for NotifierConfig {
    type V = ConfigView;

    open spec fn view(&self) -> ConfigView {
        ConfigView {
            environment: setting_view(self.environment),
            app_name: setting_view(self.app_name),
            node_name: setting_view(self.node_name),
            component_name: setting_view(self.component_name),
            source_url: setting_view(self.source_url),
        }
    }
}

impl ConfigView {
    /// The configuration in which nothing was configured.
    pub open spec fn unset() -> ConfigView {
        ConfigView {
            environment: None,
            app_name: None,
            node_name: None,
            component_name: None,
            source_url: None,
        }
    }
}

impl NotifierConfig {
    /// The configuration in which nothing was configured.
    pub fn unset() -> (config: NotifierConfig)
        ensures
            config@ == ConfigView::unset(),
    {
        NotifierConfig {
            environment: None,
            app_name: None,
            node_name: None,
            component_name: None,
            source_url: None,
        }
    }
}

/// A setting, or the default where it was not made.
pub open spec fn setting_or(setting: Option<Seq<char>>, default: Seq<char>) -> Seq<char> {
    match setting {
        Some(text) => text,
        None => default,
    }
}

/// The address that stands for a machine whose name is `host`; a machine
/// whose name could not be found has the empty name.
pub open spec fn host_url(host: Option<Seq<char>>) -> Seq<char> {
    "https://"@ + setting_or(host, Seq::empty())
}

/// The one frame that every report carries in place of a captured stack.
pub open spec fn placeholder_frame() -> FrameView {
    FrameView { filename: "filename"@, line: 42, function: "function_name"@, text: "text"@ }
}

/// The report of an error that describes itself as `description`, made with
/// the credential `api_key` on a machine named `host`.
pub open spec fn report_of(
    api_key: Seq<char>,
    config: ConfigView,
    description: Seq<char>,
    host: Option<Seq<char>>,
) -> ReportView {
    ReportView {
        api_key,
        environment: setting_or(config.environment, "production"@),
        app_name: setting_or(config.app_name, "MyApp"@),
        version: "1.0"@,
        source_url: setting_or(config.source_url, host_url(host)),
        node_name: setting_or(config.node_name, "hostname"@),
        component_name: setting_or(config.component_name, "MyComponent"@),
        exc_class: description,
        message: description,
        backtrace: Some(seq![placeholder_frame()]),
    }
}

/// The text of an optional string slice.
pub open spec fn name_view(name: Option<&str>) -> Option<Seq<char>> {
    match name {
        Some(text) => Some(text@),
        None => None,
    }
}

fn configured_or(setting: &Option<String>, default: &str) -> (text: String)
    ensures
        text@ == setting_or(setting_view(*setting), default@),
{
    match setting {
        Some(text) => text.clone(),
        None => default.to_owned(),
    }
}

fn address_of(host: Option<&str>) -> (url: String)
    ensures
        url@ == host_url(name_view(host)),
{
    let mut url = "https://".to_owned();
    match host {
        Some(name) => {
            url.append(name);
        },
        None => {
            assert("https://"@ + Seq::<char>::empty() =~= "https://"@);
        },
    }
    url
}

/// Puts the report of one error together. Every setting that `config`
/// leaves open takes its default; `host` is the name of this machine, or
/// `None` where it could not be found, and is looked at only where no
/// source address was configured.
pub fn build_report(
    api_key: &str,
    config: &NotifierConfig,
    description: &str,
    host: Option<&str>,
) -> (report: ErrbitError)
    ensures
        report@ == report_of(api_key@, config@, description@, name_view(host)),
{
    let source_url = match &config.source_url {
        Some(url) => url.clone(),
        None => address_of(host),
    };
    let frames = vec![
        ("filename".to_owned(), 42u32, "function_name".to_owned(), "text".to_owned()),
    ];
    assert(frames_view(frames@) =~= seq![placeholder_frame()]);
    ErrbitError {
        api_key: api_key.to_owned(),
        environment: configured_or(&config.environment, "production"),
        app_name: configured_or(&config.app_name, "MyApp"),
        version: "1.0".to_owned(),
        source_url,
        node_name: configured_or(&config.node_name, "hostname"),
        component_name: configured_or(&config.component_name, "MyComponent"),
        exc_class: description.to_owned(),
        message: description.to_owned(),
        backtrace: Some(frames),
    }
}

/// Every setting that was made stands in the report as it was made, and
/// every setting that was left open stands there as its default: the
/// production stage, the placeholder names, and the address of this machine.
pub proof fn lemma_settings_and_defaults(
    api_key: Seq<char>,
    config: ConfigView,
    description: Seq<char>,
    host: Option<Seq<char>>,
)
    ensures
        ({
            let report = report_of(api_key, config, description, host);
            &&& report.environment == match config.environment {
                Some(text) => text,
                None => "production"@,
            }
            &&& report.app_name == match config.app_name {
                Some(text) => text,
                None => "MyApp"@,
            }
            &&& report.node_name == match config.node_name {
                Some(text) => text,
                None => "hostname"@,
            }
            &&& report.component_name == match config.component_name {
                Some(text) => text,
                None => "MyComponent"@,
            }
            &&& report.source_url == match (config.source_url, host) {
                (Some(text), _) => text,
                (None, Some(name)) => "https://"@ + name,
                (None, None) => "https://"@,
            }
            &&& report.api_key == api_key
            &&& report.version == "1.0"@
            &&& report.exc_class == description
            &&& report.message == description
            &&& report.frames() == seq![placeholder_frame()]
        }),
{
    assert("https://"@ + Seq::<char>::empty() =~= "https://"@);
}

} // verus!

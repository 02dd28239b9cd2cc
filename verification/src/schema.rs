//! Provider options schema for UI generation.
//!
//! These types describe the configurable options of each transcription
//! provider. The UI uses these schemas to generate configuration forms.

use vstd::prelude::*;

verus! {

/// A value option for Select-type options.
#[derive(Debug, Clone)]
pub struct OptionValue {
    /// The actual value to use in configuration.
    pub value: String,
    /// Human-readable label for display.
    pub label: String,
}

impl OptionValue {
    /// Create a new option value.
    pub fn new(value: &str, label: &str) -> (r: Self)
        ensures
            r.value@ == value@,
            r.label@ == label@,
    {
        OptionValue { value: String::from_str(value), label: String::from_str(label) }
    }

    /// Create an option value where value and label are the same.
    pub fn simple(value: &str) -> (r: Self)
        ensures
            r.value@ == value@,
            r.label@ == value@,
    {
        let v = String::from_str(value);
        OptionValue { label: v.clone(), value: v }
    }
}

/// The type of input control for an option.
#[derive(Debug, Clone, Copy, PartialEq, Eq, Structural)]
pub enum OptionType {
    /// Single-line text input.
    Text,
    /// Numeric input (integer or float).
    Number,
    /// Dropdown selection from predefined values.
    Select,
    /// Boolean checkbox.
    Checkbox,
    /// File path input with browse button.
    Path,
}

/// A configurable option for a transcription provider.
#[derive(Debug, Clone)]
pub struct ProviderOption {
    /// Unique identifier for this option (used as config key).
    pub id: String,
    /// Human-readable label for the option.
    pub label: String,
    /// The type of input control to use.
    pub option_type: OptionType,
    /// Whether this option must be provided.
    pub required: bool,
    /// Default value as a string (empty if no default).
    pub default: String,
    /// Available values for Select type options.
    pub values: Vec<OptionValue>,
    /// Optional description/help text.
    pub description: Option<String>,
}

/// The value/label pairs of a list of option values.
pub open spec fn values_view(v: Seq<OptionValue>) -> Seq<(Seq<char>, Seq<char>)> {
    v.map_values(|o: OptionValue| (o.value@, o.label@))
}

/// Whether an option is exactly this one.
pub open spec fn option_is(
    o: ProviderOption,
    id: Seq<char>,
    label: Seq<char>,
    option_type: OptionType,
    required: bool,
    default: Seq<char>,
    values: Seq<(Seq<char>, Seq<char>)>,
    description: Option<Seq<char>>,
) -> bool {
    &&& o.id@ == id
    &&& o.label@ == label
    &&& o.option_type == option_type
    &&& o.required == required
    &&& o.default@ == default
    &&& values_view(o.values@) == values
    &&& match o.description {
        Some(d) => description == Some(d@),
        None => description is None,
    }
}

impl ProviderOption {
    /// Create a new provider option.
    pub fn new(id: &str, label: &str, option_type: OptionType) -> (r: Self)
        ensures
            option_is(r, id@, label@, option_type, false, Seq::empty(), Seq::empty(), None),
    {
        let r = ProviderOption {
            id: String::from_str(id),
            label: String::from_str(label),
            option_type,
            required: false,
            default: String::new(),
            values: Vec::new(),
            description: None,
        };
        assert(values_view(r.values@) =~= Seq::empty());
        r
    }

    /// Mark this option as required.
    pub fn required(self) -> (r: Self)
        ensures
            r == (ProviderOption { required: true, ..self }),
    {
        ProviderOption { required: true, ..self }
    }

    /// Set the default value.
    pub fn with_default(self, default: &str) -> (r: Self)
        ensures
            r.default@ == default@,
            r.id == self.id,
            r.label == self.label,
            r.option_type == self.option_type,
            r.required == self.required,
            r.values == self.values,
            r.description == self.description,
    {
        ProviderOption { default: String::from_str(default), ..self }
    }

    /// Set available values (for Select type).
    pub fn with_values(self, values: Vec<OptionValue>) -> (r: Self)
        ensures
            r == (ProviderOption { values, ..self }),
    {
        ProviderOption { values, ..self }
    }

    /// Set the description.
    pub fn with_description(self, description: &str) -> (r: Self)
        ensures
            r.description matches Some(d) && d@ == description@,
            r.id == self.id,
            r.label == self.label,
            r.option_type == self.option_type,
            r.required == self.required,
            r.default == self.default,
            r.values == self.values,
    {
        ProviderOption { description: Some(String::from_str(description)), ..self }
    }
}

/// Schema describing a transcription provider's configurable options.
#[derive(Debug, Clone)]
pub struct ProviderSchema {
    /// Unique identifier for the provider.
    pub provider_id: String,
    /// Human-readable name for the provider.
    pub provider_name: String,
    /// List of configurable options.
    pub options: Vec<ProviderOption>,
}

impl ProviderSchema {
    /// Create a new provider schema.
    pub fn new(provider_id: &str, provider_name: &str) -> (r: Self)
        ensures
            r.provider_id@ == provider_id@,
            r.provider_name@ == provider_name@,
            r.options@.len() == 0,
    {
        ProviderSchema {
            provider_id: String::from_str(provider_id),
            provider_name: String::from_str(provider_name),
            options: Vec::new(),
        }
    }

    /// Add an option to the schema.
    pub fn with_option(self, option: ProviderOption) -> (r: Self)
        ensures
            r.provider_id == self.provider_id,
            r.provider_name == self.provider_name,
            r.options@ == self.options@.push(option),
    {
        let mut s = self;
        s.options.push(option);
        s
    }

    /// Add multiple options to the schema.
    pub fn with_options(self, options: Vec<ProviderOption>) -> (r: Self)
        ensures
            r.provider_id == self.provider_id,
            r.provider_name == self.provider_name,
            r.options@ == self.options@ + options@,
    {
        let mut s = self;
        let mut more = options;
        s.options.append(&mut more);
        s
    }
}

/// Trait for backends that can provide their configuration schema.
pub trait HasProviderSchema {
    /// Get the schema describing this provider's options.
    fn get_provider_schema() -> ProviderSchema;
}

} // verus!

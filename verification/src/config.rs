//! The tool's settings: a flat table of named values, among them the address
//! of the contract that indexes the pages.
//!
//! The table is a `toml::Table` and is kept as one. What it holds is known to
//! the proofs by name; reading and writing go through the `toml` crate, and
//! addresses are read and written by the `ethers` crate.

use vstd::prelude::*;

verus! {

#[verifier::external_type_specification]
#[verifier::external_body]
#[verifier::reject_recursive_types(K)]
#[verifier::reject_recursive_types(V)]
pub struct ExTomlMap<K, V>(toml::map::Map<K, V>);

#[verifier::external_type_specification]
#[verifier::external_body]
pub struct ExTomlValue(toml::Value);

/// The chain on which pages are published: Moonbase Alpha.
pub const CHAIN_ID: u64 = 1287;

/// The address of an account or a contract.
#[derive(Clone, Copy, Debug, PartialEq, Eq)]
pub struct Address(pub [u8; 20]);

impl View for Address {
    type V = Seq<u8>;

    open spec fn view(&self) -> Seq<u8> {
        self.0@
    }
}

/// Why no address could be had from the settings.
#[derive(Clone, Copy, Debug, PartialEq, Eq, Structural)]
pub enum ConfigError {
    /// The table has no entry of that name.
    Missing,
    /// The entry is not a string.
    NotText,
    /// The entry is a string that does not spell an address.
    NotAnAddress,
}

/// What the table holds under each of its names: the text, where the value
/// is a string, and `None` where it is of another kind.
pub uninterp spec fn table_texts(config: toml::map::Map<String, toml::Value>) -> Map<
    Seq<char>,
    Option<Seq<char>>,
>;

/// What the table holds under each of its names that stand for a value of
/// another kind than text: that value, as `toml` writes it.
pub uninterp spec fn table_others(config: toml::map::Map<String, toml::Value>) -> Map<
    Seq<char>,
    Seq<char>,
>;

/// The address that `text` spells, as `ethers::types::H160` parses it from
/// hexadecimal digits, or `None` where it spells none.
pub uninterp spec fn parsed_address(text: Seq<char>) -> Option<Seq<u8>>;

/// What is found under `name`: nothing, a value that is no text, or a text.
pub open spec fn lookup(texts: Map<Seq<char>, Option<Seq<char>>>, name: Seq<char>) -> Option<
    Option<Seq<char>>,
> {
    if texts.contains_key(name) {
        Some(texts[name])
    } else {
        None
    }
}

/// The lower-case hexadecimal digit for a value below sixteen.
pub open spec fn hex_digit(value: int) -> char {
    if value < 10 {
        ('0' as int + value) as char
    } else {
        ('a' as int + value - 10) as char
    }
}

/// The way an address is written: `0x`, then two lower-case hexadecimal
/// digits for each byte, the high one first.
pub open spec fn hex_text(bytes: Seq<u8>) -> Seq<char> {
    seq!['0', 'x'] + Seq::new(
        2 * bytes.len(),
        |i: int|
            if i % 2 == 0 {
                hex_digit(bytes[i / 2] as int / 16)
            } else {
                hex_digit(bytes[i / 2] as int % 16)
            },
    )
}

/// Calls `toml::map::Map::get` and `toml::Value::as_str` on what it finds.
///
/// Trusted: `None` comes back exactly when the table has no entry of that
/// name, `Some(None)` when the entry is not a string, and the string
/// otherwise. The entries that are no strings are those that the table holds
/// as values of another kind.
#[verifier::external_body]
pub(crate) fn text_at(config: &toml::Table, name: &str) -> (found: Option<Option<String>>)
    ensures
        found.deep_view() == lookup(table_texts(*config), name@),
        found == Some(None::<String>) <==> table_others(*config).contains_key(name@),
{
    config.get(name).map(|value| value.as_str().map(|text| text.to_owned()))
}

/// Calls `toml::map::Map::insert` with a string value.
///
/// Trusted: afterwards the table holds `text` under `name`, whatever it held
/// there before, and every other entry as before, be it a text or a value of
/// another kind.
#[verifier::external_body]
pub(crate) fn put_text(config: &mut toml::Table, name: String, text: String)
    ensures
        table_texts(*final(config)) == table_texts(*old(config)).insert(name@, Some(text@)),
        table_others(*final(config)) == table_others(*old(config)).remove(name@),
{
    config.insert(name, toml::Value::String(text));
}

/// Parses an `ethers::types::H160` from `text` with its `FromStr`.
///
/// Trusted: whether the text spells an address, and which, depends on the
/// text alone.
#[verifier::external_body]
pub(crate) fn parse_address(text: &str) -> (bytes: Option<[u8; 20]>)
    ensures
        match bytes {
            Some(b) => parsed_address(text@) == Some(b@),
            None => parsed_address(text@) is None,
        },
{
    text.parse::<ethers::types::H160>().ok().map(|address| address.0)
}

/// Formats an `ethers::types::H160` with its `Debug`.
///
/// Trusted: the address is written as `0x` and forty lower-case hexadecimal
/// digits, two for each byte in order, and what is written so is parsed back
/// by `FromStr` as the same twenty bytes.
#[verifier::external_body]
pub(crate) fn format_address(bytes: &[u8; 20]) -> (text: String)
    ensures
        text@ == hex_text(bytes@),
        parsed_address(text@) == Some(bytes@),
{
    format!("{:?}", ethers::types::H160(*bytes))
}

/// The text found under a name, or the reason why there is none.
pub open spec fn spec_setting_text(found: Option<Option<Seq<char>>>) -> Result<
    Seq<char>,
    ConfigError,
> {
    match found {
        None => Err(ConfigError::Missing),
        Some(None) => Err(ConfigError::NotText),
        Some(Some(text)) => Ok(text),
    }
}

/// The address that a parse came to, or the reason why there is none.
pub open spec fn spec_parsed(parsed: Option<Seq<u8>>) -> Result<Seq<u8>, ConfigError> {
    match parsed {
        Some(bytes) => Ok(bytes),
        None => Err(ConfigError::NotAnAddress),
    }
}

/// The address that the settings hold under `name`.
pub open spec fn address_in(texts: Map<Seq<char>, Option<Seq<char>>>, name: Seq<char>) -> Result<
    Seq<u8>,
    ConfigError,
> {
    match spec_setting_text(lookup(texts, name)) {
        Ok(text) => spec_parsed(parsed_address(text)),
        Err(error) => Err(error),
    }
}

/// The mathematical value of an address or the reason for its absence.
pub open spec fn address_view(result: Result<Address, ConfigError>) -> Result<
    Seq<u8>,
    ConfigError,
> {
    match result {
        Ok(address) => Ok(address@),
        Err(error) => Err(error),
    }
}

/// Judges what was found under a name: only a text will do.
pub fn setting_text(found: Option<Option<String>>) -> (text: Result<String, ConfigError>)
    ensures
        text_view(text) == spec_setting_text(found.deep_view()),
{
    match found {
        None => Err(ConfigError::Missing),
        Some(None) => Err(ConfigError::NotText),
        Some(Some(text)) => Ok(text),
    }
}

/// Judges what parsing an address came to.
pub fn address_from(bytes: Option<[u8; 20]>) -> (address: Result<Address, ConfigError>)
    ensures
        address_view(address) == spec_parsed(
            match bytes {
                Some(b) => Some(b@),
                None => None,
            },
        ),
{
    match bytes {
        Some(b) => Ok(Address(b)),
        None => Err(ConfigError::NotAnAddress),
    }
}

/// The mathematical value of a text or the reason for its absence.
pub open spec fn text_view(result: Result<String, ConfigError>) -> Result<Seq<char>, ConfigError> {
    match result {
        Ok(text) => Ok(text@),
        Err(error) => Err(error),
    }
}

/// Gets the text that the settings hold under `config_name`.
///
/// It fails with `Missing` where there is no such entry and with `NotText`
/// where the entry is not a string.
pub fn get_text_in_config(config: &toml::Table, config_name: &str) -> (text: Result<
    String,
    ConfigError,
>)
    ensures
        text_view(text) == spec_setting_text(lookup(table_texts(*config), config_name@)),
{
    setting_text(text_at(config, config_name))
}

/// Looks for the address that the settings hold under `config_name`.
///
/// It fails with `Missing` where there is no such entry, with `NotText`
/// where the entry is not a string, and with `NotAnAddress` where the string
/// spells no address. Otherwise the address is the one that
/// [`get_addr_in_config`] gets.
pub fn find_addr_in_config(config: &toml::Table, config_name: &str) -> (address: Result<
    Address,
    ConfigError,
>)
    ensures
        address_view(address) == address_in(table_texts(*config), config_name@),
{
    match get_text_in_config(config, config_name) {
        Ok(text) => match address_from(parse_address(text.as_str())) {
            Ok(_) => Ok(get_addr_in_config(config, config_name)),
            Err(error) => Err(error),
        },
        Err(error) => Err(error),
    }
}

/// Gets the address that the settings hold under `config_name`.
///
/// The settings must hold one there: an entry of that name that is a string
/// and spells an address. [`find_addr_in_config`] tells whether they do.
pub fn get_addr_in_config(config: &toml::Table, config_name: &str) -> (address: Address)
    requires
        address_in(table_texts(*config), config_name@) is Ok,
    ensures
        address_in(table_texts(*config), config_name@) == Ok::<Seq<u8>, ConfigError>(address@),
{
    match text_at(config, config_name) {
        Some(Some(text)) => match parse_address(text.as_str()) {
            Some(bytes) => Address(bytes),
            None => unreached(),
        },
        _ => unreached(),
    }
}

/// Records `address` in the settings under `config_name`, written as `0x`
/// and forty hexadecimal digits. Every other setting stays as it is, and the
/// address is the one that is got from the settings afterwards.
pub fn set_addr_in_config(config: &mut toml::Table, config_name: &str, address: &Address)
    ensures
        table_texts(*final(config)) == table_texts(*old(config)).insert(
            config_name@,
            Some(hex_text(address@)),
        ),
        table_others(*final(config)) == table_others(*old(config)).remove(config_name@),
        address_in(table_texts(*final(config)), config_name@) == Ok::<Seq<u8>, ConfigError>(
            address@,
        ),
{
    put_text(config, config_name.to_owned(), format_address(&address.0));
}

/// Once an address has been recorded under a name, a text is found there:
/// the address as it is written. What stands under any other name, a text or
/// a value of another kind, stands there as before.
pub proof fn lemma_recorded_address_is_found(
    texts: Map<Seq<char>, Option<Seq<char>>>,
    others: Map<Seq<char>, Seq<char>>,
    name: Seq<char>,
    address: Seq<u8>,
    other: Seq<char>,
)
    ensures
        lookup(texts.insert(name, Some(hex_text(address))), name) == Some(Some(hex_text(address))),
        other != name ==> lookup(texts.insert(name, Some(hex_text(address))), other) == lookup(
            texts,
            other,
        ),
        other != name ==> (others.remove(name).contains_key(other) <==> others.contains_key(
            other,
        )),
        other != name && others.contains_key(other) ==> others.remove(name)[other]
            == others[other],
        !others.remove(name).contains_key(name),
{
}

} // verus!

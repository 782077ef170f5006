//! The decisions of the Telegram bot: what each command changes and
//! answers, whether a voice note is processed and with which settings, how
//! the result is delivered, and how errors are told to the user.
use vstd::prelude::*;

use crate::access::{mode_of_name, AccessControl, AccessMode};
use crate::errors::{domain_message, DomainError};
use crate::ports::{AudioInput, RemoteAudioRef};
use crate::text::{decimal, parse_i64, parse_i64_spec, push_i64, push_str, push_u64, string_of};
use crate::user_state::{chat_language, chat_style, InMemUserState};
use crate::value::{
    normalize_language, style_of_name, FormattedOutputStyle, LanguageIso, MarkdownContent,
};

verus! {

/// The bot's commands, with their raw argument.
#[derive(Debug, Clone)]
pub enum Command {
    Start,
    Help,
    Style(String),
    Language(String),
    Allow(String),
    Deny(String),
    Mode(String),
    Whoami,
}

/// The answer to a command, and whether the access state changed and is
/// to be persisted before answering.
#[derive(Debug)]
pub struct CommandReply {
    pub text: String,
    pub persist_access: bool,
}

/// Longest text sent as a chat message.
pub open spec fn max_reply_chars() -> nat {
    4096
}

pub open spec fn help_text() -> Seq<char> {
    "🎙 voice2md: envíame una nota de voz y la convierto en Markdown.\n\n/style <obsidian|logseq|plain> — cambia el estilo\n/language <LANG> — fija el idioma (auto para detección)\n/allow <id> — permite a un usuario (whitelist)\n/deny <id> — revoca acceso (whitelist)\n/mode <public|private> — modo de acceso (whitelist)\n/whoami — muestra tu ID de usuario\n/help — este mensaje"@
}

pub open spec fn no_permission_text() -> Seq<char> {
    "No tienes permiso para administrar el bot."@
}

pub open spec fn mode_label(m: AccessMode) -> Seq<char> {
    match m {
        AccessMode::Public => "public"@,
        AccessMode::Private => "private"@,
    }
}

/// The reply of a whitelisted user's `/allow` with a valid id.
pub open spec fn allow_text(target: i64, added: bool) -> Seq<char> {
    if added {
        "Usuario "@ + decimal(target as int) + " autorizado."@
    } else {
        "El usuario "@ + decimal(target as int) + " ya estaba autorizado."@
    }
}

/// The reply of a whitelisted user's `/deny` with a valid id.
pub open spec fn deny_text(target: i64, removed: bool) -> Seq<char> {
    if removed {
        "Usuario "@ + decimal(target as int) + " revocado."@
    } else {
        "El usuario "@ + decimal(target as int) + " no estaba."@
    }
}

/// Runs a command of `user_id` in `chat_id` against the access state and
/// the chat preferences.
///
/// - `/start`, `/help`: the help text.
/// - `/style <s>`: sets the chat's style when `s` names one.
/// - `/language <l>`: sets the chat's language when `l` is not blank.
/// - `/allow <id>`, `/deny <id>`, `/mode <m>`: only for whitelisted users;
///   they change the whitelist or the mode.
/// - `/whoami`: the user's id.
pub fn handle_command(
    cmd: Command,
    chat_id: i64,
    user_id: i64,
    access: &mut AccessControl,
    prefs: &mut InMemUserState,
) -> (r: CommandReply)
    ensures
        match cmd {
            Command::Start | Command::Help => {
                &&& r.text@ == help_text()
                &&& final(access)@ == old(access)@ && final(prefs)@ == old(prefs)@
                &&& !r.persist_access
            },
            Command::Style(raw) => {
                &&& final(access)@ == old(access)@ && final(prefs)@.1 == old(prefs)@.1
                &&& !r.persist_access
                &&& match style_of_name(raw@) {
                    Some(st) => final(prefs)@.0 == old(prefs)@.0.insert(chat_id, st) && r.text@
                        == "Estilo actualizado: "@ + raw@,
                    None => final(prefs)@.0 == old(prefs)@.0 && r.text@
                        == "Estilo inválido. Usa obsidian, logseq o plain."@,
                }
            },
            Command::Language(raw) => {
                &&& final(access)@ == old(access)@ && final(prefs)@.0 == old(prefs)@.0
                &&& !r.persist_access
                &&& if normalize_language(raw@).len() > 0 {
                    &&& final(prefs)@.1.dom() == old(prefs)@.1.dom().insert(chat_id)
                    &&& final(prefs)@.1[chat_id]@ == normalize_language(raw@)
                    &&& forall|c: i64|
                        c != chat_id && #[trigger] old(prefs)@.1.dom().contains(c) ==> final(prefs)@.1[c]
                            == old(prefs)@.1[c]
                    &&& r.text@ == "Idioma actualizado: "@ + raw@
                } else {
                    final(prefs)@.1 == old(prefs)@.1 && r.text@ == "Idioma inválido."@
                }
            },
            Command::Allow(raw) => {
                &&& final(prefs)@ == old(prefs)@
                &&& if !old(access)@.1.contains(user_id) {
                    final(access)@ == old(access)@ && !r.persist_access && r.text@
                        == no_permission_text()
                } else {
                    match parse_i64_spec(raw@) {
                        Some(t) => {
                            &&& final(access)@ == (old(access)@.0, old(access)@.1.insert(t))
                            &&& r.persist_access == !old(access)@.1.contains(t)
                            &&& r.text@ == allow_text(t, !old(access)@.1.contains(t))
                        },
                        None => final(access)@ == old(access)@ && !r.persist_access && r.text@
                            == "Id inválido. Usa /allow <id numérico>."@,
                    }
                }
            },
            Command::Deny(raw) => {
                &&& final(prefs)@ == old(prefs)@
                &&& if !old(access)@.1.contains(user_id) {
                    final(access)@ == old(access)@ && !r.persist_access && r.text@
                        == no_permission_text()
                } else {
                    match parse_i64_spec(raw@) {
                        Some(t) => {
                            &&& final(access)@ == (old(access)@.0, old(access)@.1.remove(t))
                            &&& r.persist_access == old(access)@.1.contains(t)
                            &&& r.text@ == deny_text(t, old(access)@.1.contains(t))
                        },
                        None => final(access)@ == old(access)@ && !r.persist_access && r.text@
                            == "Id inválido. Usa /deny <id numérico>."@,
                    }
                }
            },
            Command::Mode(raw) => {
                &&& final(prefs)@ == old(prefs)@
                &&& if !old(access)@.1.contains(user_id) {
                    final(access)@ == old(access)@ && !r.persist_access && r.text@
                        == no_permission_text()
                } else {
                    match mode_of_name(raw@) {
                        Some(m) => {
                            &&& final(access)@ == (m, old(access)@.1)
                            &&& r.persist_access
                            &&& r.text@ == "Modo actualizado: "@ + mode_label(m)
                        },
                        None => final(access)@ == old(access)@ && !r.persist_access && r.text@
                            == "Modo inválido. Usa /mode public o /mode private."@,
                    }
                }
            },
            Command::Whoami => {
                &&& final(access)@ == old(access)@ && final(prefs)@ == old(prefs)@
                &&& !r.persist_access
                &&& r.text@ == "Tu ID de usuario: "@ + decimal(user_id as int)
            },
        },
{
    let mut out: Vec<char> = Vec::new();
    let mut persist = false;
    match cmd {
        Command::Start | Command::Help => {
            push_str(
                &mut out,
                "🎙 voice2md: envíame una nota de voz y la convierto en Markdown.\n\n/style <obsidian|logseq|plain> — cambia el estilo\n/language <LANG> — fija el idioma (auto para detección)\n/allow <id> — permite a un usuario (whitelist)\n/deny <id> — revoca acceso (whitelist)\n/mode <public|private> — modo de acceso (whitelist)\n/whoami — muestra tu ID de usuario\n/help — este mensaje",
            );
        },
        Command::Style(raw) => match FormattedOutputStyle::parse(raw.as_str()) {
            Ok(style) => {
                prefs.set_style(chat_id, style);
                push_str(&mut out, "Estilo actualizado: ");
                push_str(&mut out, raw.as_str());
            },
            Err(_) => {
                push_str(&mut out, "Estilo inválido. Usa obsidian, logseq o plain.");
            },
        },
        Command::Language(raw) => match LanguageIso::new(raw.as_str()) {
            Ok(lang) => {
                prefs.set_language(chat_id, lang);
                push_str(&mut out, "Idioma actualizado: ");
                push_str(&mut out, raw.as_str());
            },
            Err(_) => {
                push_str(&mut out, "Idioma inválido.");
            },
        },
        Command::Allow(raw) => {
            if !access.is_manager(user_id) {
                push_str(&mut out, "No tienes permiso para administrar el bot.");
            } else {
                match parse_i64(raw.as_str()) {
                    Some(target) => {
                        if access.allow(target) {
                            persist = true;
                            push_str(&mut out, "Usuario ");
                            push_i64(&mut out, target);
                            push_str(&mut out, " autorizado.");
                        } else {
                            push_str(&mut out, "El usuario ");
                            push_i64(&mut out, target);
                            push_str(&mut out, " ya estaba autorizado.");
                        }
                    },
                    None => {
                        push_str(&mut out, "Id inválido. Usa /allow <id numérico>.");
                    },
                }
            }
        },
        Command::Deny(raw) => {
            if !access.is_manager(user_id) {
                push_str(&mut out, "No tienes permiso para administrar el bot.");
            } else {
                match parse_i64(raw.as_str()) {
                    Some(target) => {
                        if access.deny(target) {
                            persist = true;
                            push_str(&mut out, "Usuario ");
                            push_i64(&mut out, target);
                            push_str(&mut out, " revocado.");
                        } else {
                            push_str(&mut out, "El usuario ");
                            push_i64(&mut out, target);
                            push_str(&mut out, " no estaba.");
                        }
                    },
                    None => {
                        push_str(&mut out, "Id inválido. Usa /deny <id numérico>.");
                    },
                }
            }
        },
        Command::Mode(raw) => {
            if !access.is_manager(user_id) {
                push_str(&mut out, "No tienes permiso para administrar el bot.");
            } else {
                match AccessMode::parse(raw.as_str()) {
                    Ok(mode) => {
                        access.set_mode(mode);
                        persist = true;
                        push_str(&mut out, "Modo actualizado: ");
                        push_str(&mut out, mode.name());
                    },
                    Err(_) => {
                        push_str(&mut out, "Modo inválido. Usa /mode public o /mode private.");
                    },
                }
            }
        },
        Command::Whoami => {
            push_str(&mut out, "Tu ID de usuario: ");
            push_i64(&mut out, user_id);
        },
    }
    let text = string_of(&out);
    CommandReply { text, persist_access: persist }
}

// ---------------------------------------------------------------------------
// Voice notes
// ---------------------------------------------------------------------------

/// What the bot runs for an accepted voice note.
#[derive(Debug)]
pub struct VoiceJob {
    pub input: AudioInput,
    pub language: LanguageIso,
    pub style: FormattedOutputStyle,
    pub duration_hint: Option<u32>,
}

/// The notice sent while a voice note is processed.
pub fn processing_notice() -> (r: &'static str)
    ensures
        r@ == "Procesando nota de voz…"@,
{
    "Procesando nota de voz…"
}

/// Decides on a voice note of `user_id` in `chat_id`: ignored (`None`) when
/// the user may not transcribe; otherwise processed as remote Telegram
/// audio with the chat's language and style and the note's duration.
pub fn plan_voice(
    access: &AccessControl,
    prefs: &InMemUserState,
    chat_id: i64,
    user_id: i64,
    file_id: String,
    duration_secs: u32,
) -> (r: Option<VoiceJob>)
    ensures
        r is None <==> !(access@.0 == AccessMode::Public || access@.1.contains(user_id)),
        r matches Some(job) ==> {
            &&& job.input == AudioInput::Remote(
                RemoteAudioRef::Telegram { file_id, chat_id, user_id },
            )
            &&& job.language@ == chat_language(prefs@.1, chat_id)
            &&& job.style == chat_style(prefs@.0, chat_id)
            &&& job.duration_hint == Some(duration_secs)
        },
{
    if !access.is_allowed(user_id) {
        return None;
    }
    let style = prefs.style(chat_id);
    let language = prefs.language(chat_id);
    Some(
        VoiceJob {
            input: AudioInput::Remote(RemoteAudioRef::Telegram { file_id, chat_id, user_id }),
            language,
            style,
            duration_hint: Some(duration_secs),
        },
    )
}

/// How a Markdown result reaches the chat.
#[derive(Debug)]
pub enum Delivery {
    /// As a chat message.
    Message(String),
    /// As a document with this file name and content.
    Document { file_name: String, content: String },
}

/// Sends Markdown of at most 4096 characters as a message, longer
/// Markdown as the document `note.md`.
pub fn delivery_of(markdown: &MarkdownContent) -> (r: Delivery)
    ensures
        if markdown@.len() <= max_reply_chars() {
            r matches Delivery::Message(t) && t@ == markdown@
        } else {
            r matches Delivery::Document { file_name, content } && file_name@ == "note.md"@
                && content@ == markdown@
        },
{
    let text = markdown.as_str();
    let n = crate::text::chars_of(text).len();
    if n <= 4096 {
        Delivery::Message(text.to_owned())
    } else {
        Delivery::Document { file_name: "note.md".to_owned(), content: text.to_owned() }
    }
}

/// The message a user gets for a failed voice note.
pub open spec fn friendly_text(e: DomainError) -> Seq<char> {
    match e {
        DomainError::AudioTooLong(d, _) => "El audio supera el límite ("@ + decimal(d as int)
            + "s)."@,
        DomainError::AudioTooLarge(_, _) => "El archivo supera 25 MB."@,
        DomainError::EmptyTranscript | DomainError::Transcription(_) =>
            "No pude transcribir el audio (sin voz detectable)."@,
        DomainError::AudioFetch(_) => "No pude descargar el audio."@,
        other => "Error al procesar: "@ + domain_message(other),
    }
}

pub fn friendly_error(e: &DomainError) -> (r: String)
    ensures
        r@ == friendly_text(*e),
{
    let mut out: Vec<char> = Vec::new();
    match e {
        DomainError::AudioTooLong(d, _) => {
            push_str(&mut out, "El audio supera el límite (");
            push_u64(&mut out, *d as u64);
            push_str(&mut out, "s).");
        },
        DomainError::AudioTooLarge(_, _) => push_str(&mut out, "El archivo supera 25 MB."),
        DomainError::EmptyTranscript | DomainError::Transcription(_) => push_str(
            &mut out,
            "No pude transcribir el audio (sin voz detectable).",
        ),
        DomainError::AudioFetch(_) => push_str(&mut out, "No pude descargar el audio."),
        _ => {
            push_str(&mut out, "Error al procesar: ");
            let m = e.message();
            push_str(&mut out, m.as_str());
        },
    }
    assert(out@ =~= friendly_text(*e));
    string_of(&out)
}

/// The id of the sender: Telegram's unsigned user id as a signed integer,
/// or 0 when the message has no sender.
pub fn user_id_of(from: Option<u64>) -> (r: i64)
    ensures
        r == match from {
            Some(id) => id as i64,
            None => 0i64,
        },
{
    match from {
        Some(id) => id as i64,
        None => 0,
    }
}

} // verus!

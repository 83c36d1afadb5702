//! Editor tabs: the file being edited, its content, and the message shown after a save.

use vstd::prelude::*;
use std::sync::mpsc::{Receiver, Sender};
use std::time::SystemTime;
use crate::paths::{file_name_of, last_segment};
use crate::services::AppFile;

verus! {

#[verifier::external_type_specification]
#[verifier::external_body]
pub struct ExSystemTime(SystemTime);

#[verifier::external_type_specification]
#[verifier::external_body]
#[verifier::reject_recursive_types(T)]
pub struct ExSender<T>(Sender<T>);

#[verifier::external_type_specification]
#[verifier::external_body]
#[verifier::reject_recursive_types(T)]
pub struct ExReceiver<T>(Receiver<T>);

/// Calls `SystemTime::now`. Nothing is claimed of the time it returns.
#[verifier::external_body]
fn system_now() -> SystemTime {
    SystemTime::now()
}

/// Calls `SystemTime::elapsed` on `since` and converts the duration it returns into
/// its whole seconds (`Duration::as_secs`) and the nanoseconds beyond them
/// (`Duration::subsec_nanos`), or gives `None` where the clock now reads earlier
/// than `since`. Of the duration it claims only what `subsec_nanos` documents: the
/// nanoseconds are fewer than a second's worth. It depends on the clock, so nothing
/// more is stated.
#[verifier::external_body]
fn elapsed_parts(since: &SystemTime) -> (r: Option<(u64, u32)>)
    ensures
        r matches Some(p) ==> p.1 < 1_000_000_000,
{
    match since.elapsed() {
        Ok(d) => Some((d.as_secs(), d.subsec_nanos())),
        Err(_) => None,
    }
}

/// A message shown in a tab for a number of seconds from when it was made.
pub struct Message {
    pub message: String,
    pub show_during_seconds: u16,
    pub first_shown: SystemTime,
}

/// Whether a message shown for `show_secs` seconds has expired after `secs` seconds
/// and `nanos` nanoseconds: whether that time is longer than `show_secs` seconds.
pub open spec fn expired(show_secs: u16, secs: u64, nanos: u32) -> bool {
    secs > show_secs || (secs == show_secs && nanos > 0)
}

impl Message {
    /// A message first shown now.
    pub fn new(message: String, show_during_seconds: u16) -> (m: Message)
        ensures
            m.message@ == message@,
            m.show_during_seconds == show_during_seconds,
    {
        Message::shown_at(message, show_during_seconds, system_now())
    }

    /// A message first shown at `first_shown`.
    pub fn shown_at(message: String, show_during_seconds: u16, first_shown: SystemTime) -> (m: Message)
        ensures
            m.message == message,
            m.show_during_seconds == show_during_seconds,
            m.first_shown == first_shown,
    {
        Message { message, show_during_seconds, first_shown }
    }

    /// The message that reports a save: that it succeeded or failed, shown for five
    /// seconds.
    pub fn save_report(saved: bool) -> (m: Message)
        ensures
            saved ==> m.message@ == "Successfully saved file"@,
            !saved ==> m.message@ == "Failed to save file"@,
            m.show_during_seconds == 5,
    {
        if saved {
            Message::new(String::from_str("Successfully saved file"), 5)
        } else {
            Message::new(String::from_str("Failed to save file"), 5)
        }
    }

    /// Whether the message has expired once `secs` seconds and `nanos` nanoseconds
    /// have passed since it was first shown.
    pub fn is_expired_after(&self, secs: u64, nanos: u32) -> (r: bool)
        ensures
            r == expired(self.show_during_seconds, secs, nanos),
    {
        secs > self.show_during_seconds as u64 || (secs == self.show_during_seconds as u64 && nanos > 0)
    }

    /// The time passed since the message was first shown, in whole seconds and the
    /// nanoseconds beyond them; `None` where the clock reads earlier than then.
    pub fn age(&self) -> (r: Option<(u64, u32)>)
        ensures
            r matches Some(p) ==> p.1 < 1_000_000_000,
    {
        elapsed_parts(&self.first_shown)
    }
}

/// Once expired, a message stays expired as more time passes.
pub proof fn lemma_expiry_is_monotone(show_secs: u16, secs1: u64, nanos1: u32, secs2: u64, nanos2: u32)
    requires
        expired(show_secs, secs1, nanos1),
        secs1 < secs2 || (secs1 == secs2 && nanos1 <= nanos2),
    ensures
        expired(show_secs, secs2, nanos2),
{
}

/// What a tab asks of the worker that writes files.
pub enum TabRequest {
    /// Write this content to this file.
    SaveFile(AppFile, String),
}

/// What the worker answers a tab.
pub enum TabResponse {
    /// The message reporting a save.
    SaveFile(Message),
}

/// A tab editing one file.
pub struct EditorTab {
    pub file: AppFile,
    pub edited_content: String,
    pub message: Option<Message>,
    pub tx_tokio: Sender<TabRequest>,
    pub rx_ui: Receiver<TabResponse>,
}

impl EditorTab {
    /// A tab for `file` whose content is what was read from it, or empty where
    /// reading failed; it shows no message.
    pub fn from_read(
        file: AppFile,
        read: Result<String, String>,
        tx_tokio: Sender<TabRequest>,
        rx_ui: Receiver<TabResponse>,
    ) -> (tab: EditorTab)
        ensures
            tab.file@ == file@,
            match read {
                Ok(c) => tab.edited_content@ == c@,
                Err(_) => tab.edited_content@ == Seq::<char>::empty(),
            },
            tab.message is None,
            tab.tx_tokio == tx_tokio,
            tab.rx_ui == rx_ui,
    {
        let edited_content = match read {
            Ok(content) => content,
            Err(_) => String::new(),
        };
        EditorTab { file, edited_content, message: None, tx_tokio, rx_ui }
    }

    /// The title of the tab: the name of its file.
    pub fn title(&self) -> (t: String)
        ensures
            t@ == last_segment(self.file.path@),
    {
        file_name_of(self.file.path.as_str())
    }

    /// The request that saves the edited content to the tab's file.
    pub fn save_request(&self) -> (r: TabRequest)
        ensures
            r matches TabRequest::SaveFile(f, c) && f@ == self.file@ && c@ == self.edited_content@,
    {
        TabRequest::SaveFile(self.file.clone(), self.edited_content.clone())
    }

    /// Takes in the worker's answer: the reported message becomes the one shown.
    pub fn receive(&mut self, response: TabResponse)
        ensures
            match response {
                TabResponse::SaveFile(m) => final(self).message == Some(m),
            },
            final(self).file == old(self).file,
            final(self).edited_content == old(self).edited_content,
            final(self).tx_tokio == old(self).tx_tokio,
            final(self).rx_ui == old(self).rx_ui,
    {
        match response {
            TabResponse::SaveFile(m) => {
                self.message = Some(m);
            },
        }
    }

    /// Drops the message once it has been shown for longer than its time, given the
    /// time passed since it was first shown; a message whose age could not be read
    /// stays.
    pub fn expire_message(&mut self, age: Option<(u64, u32)>)
        ensures
            match (old(self).message, age) {
                (Some(m), Some(p)) => if expired(m.show_during_seconds, p.0, p.1) {
                    final(self).message is None
                } else {
                    final(self).message == old(self).message
                },
                _ => final(self).message == old(self).message,
            },
            final(self).file == old(self).file,
            final(self).edited_content == old(self).edited_content,
            final(self).tx_tokio == old(self).tx_tokio,
            final(self).rx_ui == old(self).rx_ui,
    {
        let drop = match (&self.message, age) {
            (Some(m), Some((secs, nanos))) => m.is_expired_after(secs, nanos),
            _ => false,
        };
        if drop {
            self.message = None;
        }
    }
}

} // verus!

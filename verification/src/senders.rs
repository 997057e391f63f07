//! The send halves of the three workers' inbound queues.
//!
//! The queues are standard multi-producer/single-consumer channels; the
//! library only creates them, clones send halves for each connection, and
//! pushes payload strings. What a queue holds is not modelled: delivery is
//! the channel's business, routing is the library's.

use vstd::prelude::*;

verus! {

/// Declares the standard channel send half for use in signatures.
#[verifier::external_type_specification]
#[verifier::external_body]
#[verifier::reject_recursive_types(T)]
pub struct ExSender<T>(std::sync::mpsc::Sender<T>);

/// Declares the standard channel receive half for use in signatures.
#[verifier::external_type_specification]
#[verifier::external_body]
#[verifier::reject_recursive_types(T)]
pub struct ExReceiver<T>(std::sync::mpsc::Receiver<T>);

/// Declares the error a send into a disconnected channel returns.
#[verifier::external_type_specification]
#[verifier::external_body]
#[verifier::reject_recursive_types(T)]
pub struct ExSendError<T>(std::sync::mpsc::SendError<T>);

/// Relies on std::sync::mpsc::channel: creates a connected sender/receiver
/// pair. Nothing further is assumed of the pair.
pub assume_specification<T>[ std::sync::mpsc::channel::<T> ]() -> (r: (
    std::sync::mpsc::Sender<T>,
    std::sync::mpsc::Receiver<T>,
));

/// Relies on std::sync::mpsc::Sender::send: queues the value, or returns it
/// in an error when the receive half is gone. Which of the two happens
/// depends on the receiver's state, so nothing is assumed of the result.
pub assume_specification<T>[ std::sync::mpsc::Sender::<T>::send ](
    s: &std::sync::mpsc::Sender<T>,
    t: T,
) -> (r: Result<(), std::sync::mpsc::SendError<T>>);

/// Relies on std::sync::mpsc::Sender::clone: yields another send half of
/// the same channel.
pub assume_specification<T>[ <std::sync::mpsc::Sender<T> as Clone>::clone ](
    s: &std::sync::mpsc::Sender<T>,
) -> (r: std::sync::mpsc::Sender<T>);

/// Cloneable handles to the three workers' inbound queues.
pub struct Senders {
    pub osu_sender: std::sync::mpsc::Sender<String>,
    pub keyboard_sender: std::sync::mpsc::Sender<String>,
    pub mouse_sender: std::sync::mpsc::Sender<String>,
}

impl Clone for Senders {
    /// Hand a connection its own send halves of the same three queues.
    fn clone(&self) -> (r: Self) {
        Self {
            osu_sender: self.osu_sender.clone(),
            keyboard_sender: self.keyboard_sender.clone(),
            mouse_sender: self.mouse_sender.clone(),
        }
    }
}

/// Create the three per-category queues: the bundled send halves, and the
/// receive halves for the osu, keyboard and mouse workers, in that order.
pub fn create_channels() -> (Senders, std::sync::mpsc::Receiver<String>, std::sync::mpsc::Receiver<
    String,
>, std::sync::mpsc::Receiver<String>) {
    let (keyboard_sender, keyboard_receiver) = std::sync::mpsc::channel::<String>();
    let (osu_sender, osu_receiver) = std::sync::mpsc::channel::<String>();
    let (mouse_sender, mouse_receiver) = std::sync::mpsc::channel::<String>();

    (
        Senders { osu_sender, keyboard_sender, mouse_sender },
        osu_receiver,
        keyboard_receiver,
        mouse_receiver,
    )
}

} // verus!

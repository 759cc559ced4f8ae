//! Common response objects and the public catalogue endpoint's data.

use vstd::prelude::*;
use vstd::string::StringExecFns;

use crate::error::ApiError;
use crate::palette::{color_names, color_values, label_colors, ColorEntry};

verus! {

/// A plain acknowledgement message.
#[derive(Debug, Clone)]
pub struct DefaultResponse {
    pub message: String,
}

/// A status-carrying acknowledgement message.
#[derive(Debug, Clone)]
pub struct Message {
    pub status: u16,
    pub status_info: String,
    pub msg: String,
}

impl Message {
    /// A fresh OK message with an empty text.
    pub fn new() -> (message: Message)
        ensures
            message.status == 200,
            message.status_info@ == "OK"@,
            message.msg@ == Seq::<char>::empty(),
    {
        Message { status: 200, status_info: String::from_str("OK"), msg: String::new() }
    }

    /// The same message with its text replaced.
    pub fn set_msg(self, msg: &str) -> (message: Message)
        ensures
            message.status == self.status,
            message.status_info == self.status_info,
            message.msg@ == msg@,
    {
        Message { msg: msg.to_owned(), ..self }
    }

    /// The same message with its status replaced.
    pub fn set_status(self, status: u16, status_info: String) -> (message: Message)
        ensures
            message.status == status,
            message.status_info == status_info,
            message.msg == self.msg,
    {
        Message { status, status_info, ..self }
    }
}

/// Offset/limit parameters of a listing request; `page` is 1-indexed.
#[derive(Debug, Clone, Copy, PartialEq, Eq, Structural)]
pub struct PaginationQueryParams {
    pub page: i64,
    pub count: i64,
}

/// The application data served to unauthenticated clients: the color
/// catalogue.
#[derive(Debug, Clone)]
pub struct AppData {
    pub colors: Vec<ColorEntry>,
}

/// Serves data that does not belong to any user.
pub struct CommonController;

impl CommonController {
    /// The public application data: the full color catalogue, in
    /// allocation order.
    pub fn get_data() -> (data: Result<AppData, ApiError>)
        ensures
            data matches Ok(d) && d.colors@.len() == color_names().len(),
            data matches Ok(d) ==> forall|i: int|
                0 <= i < d.colors@.len()
                    ==> (#[trigger] d.colors@[i].name)@ == color_names()[i]
                        && d.colors@[i].value@ == color_values()[i],
    {
        let colors = label_colors();
        Ok(AppData { colors })
    }
}

} // verus!

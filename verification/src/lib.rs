//! The logic of the Desk, a web front end that renders what a kernel holds.
//!
//! The Desk is a client of the kernel: it shows and writes nothing but what goes
//! through the kernel's doors under the acting user's session. What it decides on
//! the way stands here, each decision a function of plain values with a contract:
//! which requests are admitted ([`admission`]), what a kernel's status is answered
//! with ([`kernel`], [`refusal`]), how money is shown ([`money`]), which brand a
//! page wears ([`brand`]), what a stylesheet defines and reads ([`css`]), which
//! links a workspace offers ([`workspace`]), what a live stream says
//! ([`realtime`]), what a flash cookie carries ([`flash`]), which tenant a host
//! name hints at ([`tenant`]) and which day it is ([`calendar`]). Sockets, cookies,
//! files and the environment belong to the program around it.
//!
//! What holds over all inputs, or of several calls, is proved as a law: beside the
//! functions that it is about, in the modules whose names end in `_laws`, and for the
//! calls themselves in [`call_laws`].
pub mod admission;
pub mod brand;
pub mod brand_laws;
pub mod brand_style_laws;
pub mod calendar;
pub mod call_laws;
pub mod css;
pub mod decimal;
pub mod digits;
pub mod flash;
pub mod json;
pub mod kernel;
pub mod kernel_laws;
pub mod money;
pub mod money_laws;
pub mod realtime;
pub mod refusal;
pub mod tenant;
pub mod text;
pub mod workspace;

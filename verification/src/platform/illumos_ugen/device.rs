//! Opening devices and claiming interfaces.

use vstd::prelude::*;

use crate::bitset::EndpointBitSet;
use crate::descriptors::{self, Configuration, DeviceDescriptor};
use crate::endpoint::{Endpoint, EndpointModel, System};
use crate::enumeration::{DevfsPath, Speed};
use crate::error::{Error, ErrorKind};
use crate::platform::errno::{Errno, ErrnoNumbers};
use crate::text;
use crate::transfer::{ControlIn, ControlType, Direction, EndpointType, Recipient};

verus! {

/// The request for a descriptor
pub const USB_REQ_GET_DESCR: u8 = 0x06;

/// The request for the active configuration
pub const USB_REQ_GET_CFG: u8 = 0x08;

/// The length that is asked for where it is not known how long a descriptor is.
pub const MAX_DESCRIPTOR_LEN: u16 = 4096;

/// A kind of descriptor.
#[derive(Debug, Clone, Copy, PartialEq, Eq, Structural)]
pub enum DescriptorType {
    Device,
    Configuration { index: u8 },
    String { index: u8 },
}

impl DescriptorType {
    /// The number of the type in the high byte, and the index in the low one.
    pub open spec fn value(self) -> u16 {
        match self {
            DescriptorType::Device => 0x100,
            DescriptorType::Configuration { index } => (0x200 + index) as u16,
            DescriptorType::String { index } => (0x300 + index) as u16,
        }
    }

    /// The `wValue` field of a request for the descriptor.
    pub fn to_value(&self) -> (r: u16)
        ensures
            r == self.value(),
            *self == DescriptorType::Device ==> r == 0x100,
            *self matches DescriptorType::Configuration { index } ==> r == 0x200 + index,
            *self matches DescriptorType::String { index } ==> r == 0x300 + index,
    {
        match self {
            DescriptorType::Device => 0x100,
            DescriptorType::Configuration { index } => 0x200 + *index as u16,
            DescriptorType::String { index } => 0x300 + *index as u16,
        }
    }
}

/// A descriptor is asked for by the number of its type in the high byte and its index in the low one.
pub proof fn law_values_have_type_and_index(index: u8)
    ensures
        DescriptorType::Device.value() == 256,
        (DescriptorType::Configuration { index }).value() == 512 + index,
        (DescriptorType::String { index }).value() == 768 + index,
{
}

/// Something that is asked of a device through its control node.
#[derive(Debug, Clone, Copy, PartialEq, Eq, Structural)]
pub enum Question {
    /// A string descriptor, in US English
    RawString { index: u8 },
    /// The device descriptor
    DeviceDescriptor { index: u16 },
    /// A configuration descriptor and all that belongs to it
    ConfigDescriptors { config: u8, index: u16 },
    /// The active configuration
    Configuration,
}

/// How far asking has got.
#[derive(Debug, Clone, Copy, PartialEq, Eq, Structural)]
pub enum Stage {
    Write,
    Read,
    /// All of a configuration is asked for, now that its length is known
    WriteAll { total: u16 },
    ReadAll { total: u16 },
}

/// The request that a question is asked with; `length` is the number of bytes asked for.
pub open spec fn request_of(question: Question, length: u16) -> Seq<u8> {
    let (request, value, index) = match question {
        Question::RawString { index } => (
            USB_REQ_GET_DESCR,
            DescriptorType::String { index }.value(),
            descriptors::language_id::US_ENGLISH,
        ),
        Question::DeviceDescriptor { index } => (
            USB_REQ_GET_DESCR,
            DescriptorType::Device.value(),
            index,
        ),
        Question::ConfigDescriptors { config, index } => (
            USB_REQ_GET_DESCR,
            DescriptorType::Configuration { index: config }.value(),
            index,
        ),
        Question::Configuration => (USB_REQ_GET_CFG, 0u16, 0u16),
    };
    crate::transfer::setup_bytes(0x80, request, value, index, length)
}

/// The number of bytes that are asked for first.
pub open spec fn first_len(question: Question) -> u16 {
    match question {
        Question::RawString { .. } => MAX_DESCRIPTOR_LEN,
        Question::DeviceDescriptor { .. } => descriptors::DESCRIPTOR_LEN_DEVICE as u16,
        Question::ConfigDescriptors { .. } => descriptors::DESCRIPTOR_LEN_CONFIGURATION as u16,
        Question::Configuration => 1,
    }
}

/// What is to be done next to get an answer.
#[derive(Debug, Clone, Copy)]
pub enum Action {
    /// Write these bytes.
    Write([u8; 8]),
    /// Read up to this number of bytes.
    Read(u16),
}

/// What came of the last action: how many bytes were written, or how many were read into a buffer
/// that held as many zeros as bytes were asked for.
#[derive(Debug)]
pub enum Event {
    Wrote(Result<usize, Errno>),
    Read(Result<usize, Errno>, Vec<u8>),
}

/// Something is being asked of a device.
#[derive(Debug, Clone, Copy, PartialEq, Eq, Structural)]
pub struct Asking {
    pub question: Question,
    pub stage: Stage,
}

/// Whether asking goes on or has an answer.
#[derive(Debug)]
pub enum Answer {
    More(Asking),
    Done(Vec<u8>),
}

/// The message for a request that was not written whole.
pub open spec fn short_write_message(question: Question, stage: Stage) -> Seq<char> {
    match (question, stage) {
        (_, Stage::WriteAll { .. }) => "short descriptor write"@,
        (Question::Configuration, _) => "short descriptor write"@,
        _ => "incomplete write"@,
    }
}

/// What comes of an answer of `n` bytes to a question, the bytes of the buffer being `buf`: the
/// message of an error, all of the answer, or the length of all that there is to ask for.
pub open spec fn reply_to(question: Question, n: nat, buf: Seq<u8>) -> Result<
    Result<Seq<u8>, u16>,
    Seq<char>,
> {
    match question {
        Question::RawString { .. } => if n == 0 {
            Err("empty string descriptor"@)
        } else {
            Ok(Ok(buf.take(buf[0] as int)))
        },
        Question::DeviceDescriptor { .. } => if n != descriptors::DESCRIPTOR_LEN_DEVICE {
            Err("short descriptor read"@)
        } else {
            Ok(Ok(buf))
        },
        Question::ConfigDescriptors { .. } => if n != descriptors::DESCRIPTOR_LEN_CONFIGURATION {
            Err("short descriptor read"@)
        } else if descriptors::le16(buf[2], buf[3]) == 0 {
            Err("Empty descriptor"@)
        } else {
            Ok(Err(descriptors::le16(buf[2], buf[3])))
        },
        Question::Configuration => if n != 1 {
            Err("short descriptor len"@)
        } else {
            Ok(Ok(buf))
        },
    }
}

impl Asking {
    /// Ask something.
    pub fn new(question: Question) -> (r: Asking)
        ensures
            r == (Asking { question, stage: Stage::Write }),
    {
        Asking { question, stage: Stage::Write }
    }

    /// What is to be done next.
    pub fn action(&self) -> (r: Action)
        ensures
            match self.stage {
                Stage::Write => r matches Action::Write(packet) && packet@ == request_of(
                    self.question,
                    first_len(self.question),
                ),
                Stage::Read => r == Action::Read(first_len(self.question)),
                Stage::WriteAll { total } => r matches Action::Write(packet) && packet@
                    == request_of(self.question, total),
                Stage::ReadAll { total } => r == Action::Read(total),
            },
    {
        match self.stage {
            Stage::Write => Action::Write(self.request(self.len())),
            Stage::Read => Action::Read(self.len()),
            Stage::WriteAll { total } => Action::Write(self.request(total)),
            Stage::ReadAll { total } => Action::Read(total),
        }
    }

    fn len(&self) -> (r: u16)
        ensures
            r == first_len(self.question),
    {
        match self.question {
            Question::RawString { .. } => MAX_DESCRIPTOR_LEN,
            Question::DeviceDescriptor { .. } => descriptors::DESCRIPTOR_LEN_DEVICE as u16,
            Question::ConfigDescriptors { .. } => descriptors::DESCRIPTOR_LEN_CONFIGURATION as u16,
            Question::Configuration => 1,
        }
    }

    fn request(&self, length: u16) -> (r: [u8; 8])
        ensures
            r@ == request_of(self.question, length),
    {
        let (request, value, index): (u8, u16, u16) = match self.question {
            Question::RawString { index } => (
                USB_REQ_GET_DESCR,
                DescriptorType::String { index }.to_value(),
                descriptors::language_id::US_ENGLISH,
            ),
            Question::DeviceDescriptor { index } => (
                USB_REQ_GET_DESCR,
                DescriptorType::Device.to_value(),
                index,
            ),
            Question::ConfigDescriptors { config, index } => (
                USB_REQ_GET_DESCR,
                DescriptorType::Configuration { index: config }.to_value(),
                index,
            ),
            Question::Configuration => (USB_REQ_GET_CFG, 0, 0),
        };
        let control = ControlIn {
            control_type: ControlType::Standard,
            recipient: Recipient::Device,
            request,
            value,
            index,
            length,
        };
        control.setup_packet()
    }

    /// Whether this can be what came of the action that was to be done.
    pub open spec fn accepts(self, event: Event) -> bool {
        match (self.stage, event) {
            (Stage::Write, Event::Wrote(_)) => true,
            (Stage::WriteAll { .. }, Event::Wrote(_)) => true,
            (Stage::Read, Event::Read(Err(_), _)) => true,
            (Stage::Read, Event::Read(Ok(n), buf)) => n <= buf@.len() && buf@.len() == first_len(
                self.question,
            ),
            (Stage::ReadAll { .. }, Event::Read(Err(_), _)) => true,
            (Stage::ReadAll { total }, Event::Read(Ok(n), buf)) => n <= buf@.len() && buf@.len()
                == total,
            _ => false,
        }
    }

    /// Go on after the action was done.
    pub fn step(self, event: Event) -> (r: Result<Answer, Error>)
        requires
            self.accepts(event),
        ensures
            match event {
                Event::Wrote(Err(errno)) => r matches Err(e) && e.is(
                    ErrorKind::Other,
                    crate::error::os_code(errno.code),
                    "failed to write"@,
                ),
                Event::Wrote(Ok(n)) => if n != 8 {
                    r matches Err(e) && e.is(
                        ErrorKind::Other,
                        None,
                        short_write_message(self.question, self.stage),
                    ) && e.message@ == if self.stage is WriteAll || self.question
                        == Question::Configuration {
                        "short descriptor write"@
                    } else {
                        "incomplete write"@
                    }
                } else {
                    r matches Ok(Answer::More(next)) && next == (Asking {
                        question: self.question,
                        stage: match self.stage {
                            Stage::WriteAll { total } => Stage::ReadAll { total },
                            _ => Stage::Read,
                        },
                    })
                },
                Event::Read(Err(errno), _) => r matches Err(e) && e.is(
                    ErrorKind::Other,
                    crate::error::os_code(errno.code),
                    "failed to read"@,
                ),
                Event::Read(Ok(n), buf) => match self.stage {
                    Stage::ReadAll { total } => if n != total {
                        r matches Err(e) && e.is(ErrorKind::Other, None, "short descriptor read"@)
                    } else {
                        r matches Ok(Answer::Done(data)) && data@ == buf@
                    },
                    _ => match reply_to(self.question, n as nat, buf@) {
                        Err(message) => r matches Err(e) && e.is(ErrorKind::Other, None, message),
                        Ok(Ok(data)) => r matches Ok(Answer::Done(d)) && d@ == data,
                        Ok(Err(total)) => r matches Ok(Answer::More(next)) && next == (Asking {
                            question: self.question,
                            stage: Stage::WriteAll { total },
                        }),
                    },
                },
            },
    {
        match event {
            Event::Wrote(Err(e)) => Err(
                Error::new_os(ErrorKind::Other, "failed to write", e.code),
            ),
            Event::Wrote(Ok(n)) => {
                if n != 8 {
                    return Err(
                        match (self.question, self.stage) {
                            (_, Stage::WriteAll { .. }) => Error::new(
                                ErrorKind::Other,
                                "short descriptor write",
                            ),
                            (Question::Configuration, _) => Error::new(
                                ErrorKind::Other,
                                "short descriptor write",
                            ),
                            _ => Error::new(ErrorKind::Other, "incomplete write"),
                        },
                    );
                }
                let stage = match self.stage {
                    Stage::WriteAll { total } => Stage::ReadAll { total },
                    _ => Stage::Read,
                };
                Ok(Answer::More(Asking { question: self.question, stage }))
            },
            Event::Read(Err(e), _) => Err(
                Error::new_os(ErrorKind::Other, "failed to read", e.code),
            ),
            Event::Read(Ok(n), buf) => {
                if let Stage::ReadAll { total } = self.stage {
                    if n != total as usize {
                        return Err(Error::new(ErrorKind::Other, "short descriptor read"));
                    }
                    return Ok(Answer::Done(buf));
                }
                self.answer(n, buf)
            },
        }
    }

    /// Look at the first answer.
    fn answer(self, n: usize, buf: Vec<u8>) -> (r: Result<Answer, Error>)
        requires
            buf@.len() == first_len(self.question),
        ensures
            match reply_to(self.question, n as nat, buf@) {
                Err(message) => r matches Err(e) && e.is(ErrorKind::Other, None, message),
                Ok(Ok(data)) => r matches Ok(Answer::Done(d)) && d@ == data,
                Ok(Err(total)) => r matches Ok(Answer::More(next)) && next == (Asking {
                    question: self.question,
                    stage: Stage::WriteAll { total },
                }),
            },
    {
        let mut buf = buf;
        match self.question {
            Question::RawString { .. } => {
                if n == 0 {
                    return Err(Error::new(ErrorKind::Other, "empty string descriptor"));
                }
                let len: usize = buf[0] as usize;
                buf.truncate(len);
                Ok(Answer::Done(buf))
            },
            Question::DeviceDescriptor { .. } => {
                if n != descriptors::DESCRIPTOR_LEN_DEVICE as usize {
                    return Err(Error::new(ErrorKind::Other, "short descriptor read"));
                }
                Ok(Answer::Done(buf))
            },
            Question::ConfigDescriptors { .. } => {
                if n != descriptors::DESCRIPTOR_LEN_CONFIGURATION as usize {
                    return Err(Error::new(ErrorKind::Other, "short descriptor read"));
                }
                let total: u16 = descriptors::read_le16(buf.as_slice(), 2);
                if total == 0 {
                    return Err(Error::new(ErrorKind::Other, "Empty descriptor"));
                }
                Ok(
                    Answer::More(
                        Asking { question: self.question, stage: Stage::WriteAll { total } },
                    ),
                )
            },
            Question::Configuration => {
                if n != 1 {
                    return Err(Error::new(ErrorKind::Other, "short descriptor len"));
                }
                Ok(Answer::Done(buf))
            },
        }
    }
}

/// A question is asked with a standard request for so many bytes: for the string descriptor with the
/// index in US English, the device descriptor, the configuration descriptor with the index, or the
/// number of the configuration. So many are asked for first: as many as a string descriptor can have, a
/// device or configuration descriptor has, or one.
pub proof fn law_questions_are_requests(question: Question, length: u16)
    ensures
        ({
            let low = (length % 256) as u8;
            let high = (length / 256) as u8;
            match question {
                Question::RawString { index } => first_len(question) == 4096 && request_of(
                    question,
                    length,
                ) == seq![0x80u8, 6u8, index, 3u8, 9u8, 4u8, low, high],
                Question::DeviceDescriptor { index } => first_len(question) == 18 && request_of(
                    question,
                    length,
                ) == seq![
                    0x80u8,
                    6u8,
                    0u8,
                    1u8,
                    (index % 256) as u8,
                    (index / 256) as u8,
                    low,
                    high,
                ],
                Question::ConfigDescriptors { config, index } => first_len(question) == 9
                    && request_of(question, length) == seq![
                    0x80u8,
                    6u8,
                    config,
                    2u8,
                    (index % 256) as u8,
                    (index / 256) as u8,
                    low,
                    high,
                ],
                Question::Configuration => first_len(question) == 1 && request_of(question, length)
                    == seq![0x80u8, 8u8, 0u8, 0u8, 0u8, 0u8, low, high],
            }
        }),
{
    match question {
        Question::RawString { index } => {
            assert(request_of(question, length) =~= seq![
                0x80u8,
                6u8,
                index,
                3u8,
                9u8,
                4u8,
                (length % 256) as u8,
                (length / 256) as u8,
            ]);
        },
        Question::DeviceDescriptor { index } => {
            assert(request_of(question, length) =~= seq![
                0x80u8,
                6u8,
                0u8,
                1u8,
                (index % 256) as u8,
                (index / 256) as u8,
                (length % 256) as u8,
                (length / 256) as u8,
            ]);
        },
        Question::ConfigDescriptors { config, index } => {
            assert(request_of(question, length) =~= seq![
                0x80u8,
                6u8,
                config,
                2u8,
                (index % 256) as u8,
                (index / 256) as u8,
                (length % 256) as u8,
                (length / 256) as u8,
            ]);
        },
        Question::Configuration => {
            assert(request_of(question, length) =~= seq![
                0x80u8,
                8u8,
                0u8,
                0u8,
                0u8,
                0u8,
                (length % 256) as u8,
                (length / 256) as u8,
            ]);
        },
    }
}

/// A string descriptor is as long as its first byte says. A device descriptor and the number of a
/// configuration are answered whole or not at all. A configuration descriptor tells how long all of the
/// configuration is, and that is asked for then.
pub proof fn law_answers_are_whole(question: Question, n: nat, buf: Seq<u8>)
    ensures
        match question {
            Question::RawString { index } => if n == 0 {
                reply_to(question, n, buf) == Err::<Result<Seq<u8>, u16>, Seq<char>>(
                    "empty string descriptor"@,
                )
            } else {
                reply_to(question, n, buf) matches Ok(Ok(data)) && (buf.len() >= buf[0] ==> data.len()
                    == buf[0] && data.is_prefix_of(buf))
            },
            Question::DeviceDescriptor { index } => reply_to(question, n, buf) == if n == 18 {
                Ok::<Result<Seq<u8>, u16>, Seq<char>>(Ok(buf))
            } else {
                Err("short descriptor read"@)
            },
            Question::ConfigDescriptors { config, index } => if n != 9 {
                reply_to(question, n, buf) == Err::<Result<Seq<u8>, u16>, Seq<char>>(
                    "short descriptor read"@,
                )
            } else if buf[2] == 0 && buf[3] == 0 {
                reply_to(question, n, buf) == Err::<Result<Seq<u8>, u16>, Seq<char>>(
                    "Empty descriptor"@,
                )
            } else {
                reply_to(question, n, buf) matches Ok(Err(total)) && total == buf[2] + 256 * buf[3]
            },
            Question::Configuration => reply_to(question, n, buf) == if n == 1 {
                Ok::<Result<Seq<u8>, u16>, Seq<char>>(Ok(buf))
            } else {
                Err("short descriptor len"@)
            },
        },
{
}

/// A request that was not written whole is said to be short where it asks for all of a configuration or
/// for the number of it, and else to be incomplete.
pub proof fn law_short_writes_are_told(question: Question, stage: Stage)
    ensures
        stage is WriteAll || question == Question::Configuration ==> short_write_message(
            question,
            stage,
        ) == "short descriptor write"@,
        !(stage is WriteAll) && question != Question::Configuration ==> short_write_message(
            question,
            stage,
        ) == "incomplete write"@,
{
}

/// What is written is answered by how much of it was written, and what is read by what was read into
/// as many bytes as were asked for.
pub proof fn law_events_answer_actions(asking: Asking, event: Event)
    ensures
        event is Wrote ==> (asking.accepts(event) <==> asking.stage is Write || asking.stage is WriteAll),
        event matches Event::Read(Err(_), _) ==> (asking.accepts(event) <==> asking.stage is Read
            || asking.stage is ReadAll),
        event matches Event::Read(Ok(n), buf) ==> (asking.accepts(event) <==> n <= buf@.len() && (
        asking.stage is Read && buf@.len() == first_len(asking.question) || (
        asking.stage matches Stage::ReadAll { total } && buf@.len() == total))),
{
}

/// The path of the control node of a device, or of its status file.
pub fn control_path(paths: &DevfsPath, stat: bool) -> (r: Result<&str, Error>)
    ensures
        ({
            let name = if stat {
                "cntrl0stat"@
            } else {
                "cntrl0"@
            };
            if paths.device_paths@.dom().contains(name) {
                r matches Ok(path) && path@ == paths.device_paths@[name]@
            } else {
                r matches Err(e) && e.is(ErrorKind::Other, None, "not ugen"@)
            }
        }),
{
    let path = if stat {
        paths.device_paths.get("cntrl0stat")
    } else {
        paths.device_paths.get("cntrl0")
    };
    match path {
        Some(path) => Ok(path.as_str()),
        None => Err(Error::new(ErrorKind::Other, "not ugen")),
    }
}

/// An endpoint of an interface.
#[derive(Debug, Clone, Copy, PartialEq, Eq, Structural)]
pub struct RawEndpoint {
    pub interface_number: u8,
    pub address: u8,
    pub transfer_type: EndpointType,
    pub direction: Direction,
}

impl RawEndpoint {
    /// The file name of the node of the endpoint.
    pub open spec fn basename(self) -> Seq<char> {
        "if"@ + text::decimal(self.interface_number as nat) + match self.direction {
            Direction::In => "in"@,
            Direction::Out => "out"@,
        } + text::decimal((self.address % 128) as nat)
    }

    /// The file name of the node of the endpoint.
    pub fn device_basename(&self) -> (r: String)
        ensures
            r@ == self.basename(),
    {
        let mut name = String::from_str("if");
        let number = text::write_decimal(self.interface_number as u32);
        name.append(number.as_str());
        match self.direction {
            Direction::In => name.append("in"),
            Direction::Out => name.append("out"),
        }
        let address = text::write_decimal((self.address % 128) as u32);
        name.append(address.as_str());
        name
    }

    /// The file name of the status file of the endpoint.
    pub fn stat_basename(&self) -> (r: String)
        ensures
            r@ == self.basename() + "stat"@,
    {
        let mut name = self.device_basename();
        name.append("stat");
        name
    }
}

/// An interface with the endpoints of its first alternate setting.
#[derive(Debug)]
pub struct RawInterface {
    pub number: u8,
    pub endpoints: Vec<RawEndpoint>,
}

/// [`RawInterface`] with its endpoints as a sequence.
#[verifier::ext_equal]
pub struct RawInterfaceModel {
    pub number: u8,
    pub endpoints: Seq<RawEndpoint>,
}

impl View for RawInterface {
    type V = RawInterfaceModel;

    open spec fn view(&self) -> RawInterfaceModel {
        RawInterfaceModel { number: self.number, endpoints: self.endpoints@ }
    }
}

/// The interfaces with their endpoints as sequences.
pub open spec fn raw_interfaces(v: Seq<RawInterface>) -> Seq<RawInterfaceModel> {
    v.map_values(|i: RawInterface| i@)
}

/// An endpoint of an interface, by its descriptor.
pub open spec fn raw_endpoint(interface_number: u8, descriptor: Seq<u8>) -> RawEndpoint {
    RawEndpoint {
        interface_number,
        address: descriptor[2],
        transfer_type: EndpointType::of_attributes(descriptor[3]),
        direction: Direction::of_address(descriptor[2]),
    }
}

/// An interface, by the bytes of its alternate settings.
pub open spec fn raw_interface(group: (u8, Seq<Seq<u8>>)) -> RawInterfaceModel {
    RawInterfaceModel {
        number: group.1[0][2],
        endpoints: descriptors::descriptor_groups(
            group.1[0],
            descriptors::DESCRIPTOR_TYPE_ENDPOINT,
            descriptors::DESCRIPTOR_LEN_ENDPOINT,
        ).map_values(|e: Seq<u8>| raw_endpoint(group.1[0][2], e)),
    }
}

/// The interfaces of the configuration that `config` begins with.
pub open spec fn interfaces_of(config: Seq<u8>) -> Seq<RawInterfaceModel> {
    descriptors::interface_groups(
        descriptors::descriptor_groups(
            config.take(descriptors::config_total_len(config) as int),
            descriptors::DESCRIPTOR_TYPE_INTERFACE,
            descriptors::DESCRIPTOR_LEN_INTERFACE,
        ),
    ).map_values(|g: (u8, Seq<Seq<u8>>)| raw_interface(g))
}

/// The node of an endpoint is named after the number of the interface, the direction and the number of
/// the endpoint, which is its address without the direction.
pub proof fn law_nodes_are_named_by_numbers(e: RawEndpoint)
    ensures
        e.direction == Direction::In ==> e.basename() == seq!['i', 'f'] + text::decimal(
            e.interface_number as nat,
        ) + seq!['i', 'n'] + text::decimal(
            if e.address >= 128 {
                (e.address - 128) as nat
            } else {
                e.address as nat
            },
        ),
        e.direction == Direction::Out ==> e.basename() == seq!['i', 'f'] + text::decimal(
            e.interface_number as nat,
        ) + seq!['o', 'u', 't'] + text::decimal(
            if e.address >= 128 {
                (e.address - 128) as nat
            } else {
                e.address as nat
            },
        ),
{
    reveal_strlit("if");
    reveal_strlit("in");
    reveal_strlit("out");
    assert("if"@ =~= seq!['i', 'f']);
    assert("in"@ =~= seq!['i', 'n']);
    assert("out"@ =~= seq!['o', 'u', 't']);
    assert(e.address % 128 == if e.address >= 128 {
        e.address - 128
    } else {
        e.address as int
    });
}

/// The interfaces are those of the configuration, and each has the endpoints of its first alternate
/// setting, with the address, the direction and the transfer type that their descriptors give.
pub proof fn law_interfaces_have_first_endpoints(config: Seq<u8>, i: int, k: int)
    ensures
        ({
            let groups = descriptors::interface_groups(
                descriptors::descriptor_groups(config.take(config[2] + 256 * config[3]), 4, 9),
            );
            let found = interfaces_of(config);
            &&& found.len() == groups.len()
            &&& 0 <= i < groups.len() ==> {
                let alt = groups[i].1[0];
                let endpoints = descriptors::descriptor_groups(alt, 5, 7);
                &&& found[i].number == alt[2]
                &&& found[i].endpoints.len() == endpoints.len()
                &&& 0 <= k < endpoints.len() ==> {
                    let e = found[i].endpoints[k];
                    &&& e.interface_number == alt[2]
                    &&& e.address == endpoints[k][2]
                    &&& e.direction == Direction::In <==> endpoints[k][2] >= 128
                    &&& e.transfer_type == EndpointType::Control <==> endpoints[k][3] % 4 == 0
                    &&& e.transfer_type == EndpointType::Isochronous <==> endpoints[k][3] % 4 == 1
                    &&& e.transfer_type == EndpointType::Bulk <==> endpoints[k][3] % 4 == 2
                    &&& e.transfer_type == EndpointType::Interrupt <==> endpoints[k][3] % 4 == 3
                }
            }
        }),
{
}

/// The endpoints of an interface are those of the last that has its number, and there are none if there
/// is no such interface.
pub proof fn law_interface_is_found_by_number(
    interfaces: Seq<RawInterface>,
    number: u8,
    i: int,
)
    requires
        -1 <= i < interfaces.len(),
        i >= 0 ==> interfaces[i].number == number,
        forall|j: int| i < j < interfaces.len() ==> (#[trigger] interfaces[j]).number != number,
    ensures
        i < 0 ==> endpoints_of(raw_interfaces(interfaces), number) is None,
        i >= 0 ==> endpoints_of(raw_interfaces(interfaces), number) == Some(
            interfaces[i].endpoints@,
        ),
    decreases interfaces.len(),
{
    let all = raw_interfaces(interfaces);
    if interfaces.len() > 0 {
        let before = interfaces.drop_last();
        assert(all.drop_last() =~= raw_interfaces(before));
        assert(all.last() == interfaces.last()@);
        if i < interfaces.len() - 1 {
            assert(interfaces[interfaces.len() - 1].number != number);
            assert forall|j: int| i < j < before.len() implies (#[trigger] before[j]).number
                != number by {
                assert(before[j] == interfaces[j]);
            }
            law_interface_is_found_by_number(before, number, i);
        }
    }
}

/// An endpoint is known by its address and its transfer type together.
pub proof fn law_endpoint_is_found_by_address(
    endpoints: Seq<RawEndpoint>,
    e: RawEndpoint,
    address: u8,
    transfer_type: EndpointType,
)
    ensures
        !has_endpoint(Seq::empty(), address, transfer_type),
        has_endpoint(endpoints.push(e), address, transfer_type) <==> has_endpoint(
            endpoints,
            address,
            transfer_type,
        ) || (e.address == address && e.transfer_type == transfer_type),
{
    let more = endpoints.push(e);
    assert(more[endpoints.len() as int] == e);
    if has_endpoint(endpoints, address, transfer_type) {
        let k = choose|k: int|
            0 <= k < endpoints.len() && (#[trigger] endpoints[k]).address == address
                && endpoints[k].transfer_type == transfer_type;
        assert(more[k] == endpoints[k]);
    }
    if has_endpoint(more, address, transfer_type) && !(e.address == address && e.transfer_type
        == transfer_type) {
        let k = choose|k: int|
            0 <= k < more.len() && (#[trigger] more[k]).address == address && more[k].transfer_type
                == transfer_type;
        assert(more[k] == endpoints[k]);
    }
}

fn read_interface(group: &descriptors::InterfaceGroup<'_>) -> (r: RawInterface)
    ensures
        r@ == raw_interface(group@),
{
    let alt = group.first_alt_setting();
    let number: u8 = alt.interface_number();
    let found = alt.endpoints();
    let ghost all = descriptors::descriptor_groups(
        alt@,
        descriptors::DESCRIPTOR_TYPE_ENDPOINT,
        descriptors::DESCRIPTOR_LEN_ENDPOINT,
    );
    let mut endpoints: Vec<RawEndpoint> = Vec::new();
    let mut i: usize = 0;
    while i < found.len()
        invariant
            i <= found@.len(),
            endpoints@.len() == i,
            found@.map_values(|e: descriptors::Endpoint<'_>| e@) == all,
            forall|k: int| 0 <= k < i ==> #[trigger] endpoints@[k] == raw_endpoint(number, all[k]),
        decreases found@.len() - i,
    {
        assert(all[i as int] == found@[i as int]@);
        endpoints.push(
            RawEndpoint {
                interface_number: number,
                address: found[i].address(),
                transfer_type: found[i].transfer_type(),
                direction: found[i].direction(),
            },
        );
        i = i + 1;
    }
    let r = RawInterface { number, endpoints };
    assert(r@ =~= raw_interface(group@));
    r
}

fn read_interfaces(config: &[u8]) -> (r: Option<Vec<RawInterface>>)
    ensures
        r is Some <==> descriptors::starts_with_config(config@),
        r matches Some(v) ==> raw_interfaces(v@) == interfaces_of(config@),
{
    let total_len: usize = match descriptors::validate_config_descriptor(config) {
        Some(total_len) => total_len,
        None => return None,
    };
    let bytes = vstd::slice::slice_subrange(config, 0, total_len);
    assert(bytes@ =~= config@.take(descriptors::config_total_len(config@) as int));
    let groups = Configuration::new(bytes).interfaces();
    let ghost all = descriptors::group_views(groups@);
    let mut interfaces: Vec<RawInterface> = Vec::new();
    let mut i: usize = 0;
    while i < groups.len()
        invariant
            i <= groups@.len(),
            interfaces@.len() == i,
            all == descriptors::group_views(groups@),
            forall|k: int| 0 <= k < i ==> (#[trigger] interfaces@[k])@ == raw_interface(all[k]),
        decreases groups@.len() - i,
    {
        assert(all[i as int] == groups@[i as int]@);
        interfaces.push(read_interface(&groups[i]));
        i = i + 1;
    }
    assert(raw_interfaces(interfaces@) =~= interfaces_of(config@));
    Some(interfaces)
}

/// Whether the bytes that a device has answered are a device descriptor.
pub fn check_device_descriptor(descriptor: &[u8]) -> (r: Result<(), Error>)
    ensures
        r is Ok <==> descriptors::starts_with_device(descriptor@),
        r is Ok <==> descriptor@.len() >= 18 && descriptor@[0] >= 18 && descriptor@[1] == 1,
        r matches Err(e) ==> e.is(ErrorKind::Other, None, "Invalid device descriptor"@),
{
    match DeviceDescriptor::new(descriptor) {
        Some(_) => Ok(()),
        None => Err(Error::new(ErrorKind::Other, "Invalid device descriptor")),
    }
}

/// The endpoints of an interface.
pub open spec fn endpoints_of(interfaces: Seq<RawInterfaceModel>, number: u8) -> Option<
    Seq<RawEndpoint>,
>
    decreases interfaces.len(),
{
    if interfaces.len() == 0 {
        None
    } else if interfaces.last().number == number {
        Some(interfaces.last().endpoints)
    } else {
        endpoints_of(interfaces.drop_last(), number)
    }
}

/// The node of an endpoint, or its status file, that is to be opened: for reading or for writing
/// as the direction says.
#[derive(Debug)]
pub struct NodeToOpen {
    pub address: u8,
    pub direction: Direction,
    pub path: String,
}

/// An open device.
#[derive(Debug)]
pub struct IllumosDevice {
    pub device_descriptor: Vec<u8>,
    pub config_descriptors: Vec<u8>,
    pub active_config: u8,
    pub paths: DevfsPath,
    pub interfaces: Vec<RawInterface>,
}

impl IllumosDevice {
    /// Open a device, once it has answered what it is. Its device descriptor was checked.
    pub fn from_device_info(
        device_descriptor: Vec<u8>,
        active_config: u8,
        config_descriptors: Vec<u8>,
        paths: DevfsPath,
    ) -> (r: Result<IllumosDevice, Error>)
        ensures
            if descriptors::starts_with_config(config_descriptors@) {
                r matches Ok(d) && d.device_descriptor == device_descriptor && d.active_config
                    == active_config && d.config_descriptors == config_descriptors && d.paths
                    == paths && raw_interfaces(d.interfaces@) == interfaces_of(
                    config_descriptors@,
                )
            } else {
                r matches Err(e) && e.is(ErrorKind::Other, None, "Invalid config desc"@)
            },
    {
        match read_interfaces(config_descriptors.as_slice()) {
            Some(interfaces) => Ok(
                IllumosDevice {
                    device_descriptor,
                    config_descriptors,
                    active_config,
                    paths,
                    interfaces,
                },
            ),
            None => Err(Error::new(ErrorKind::Other, "Invalid config desc")),
        }
    }

    fn find_endpoints(&self, number: u8) -> (r: Option<&Vec<RawEndpoint>>)
        ensures
            match endpoints_of(raw_interfaces(self.interfaces@), number) {
                Some(endpoints) => r matches Some(v) && v@ == endpoints,
                None => r is None,
            },
    {
        let ghost all = raw_interfaces(self.interfaces@);
        let mut i: usize = self.interfaces.len();
        assert(all.take(all.len() as int) =~= all);
        while i > 0
            invariant
                i <= self.interfaces@.len(),
                all == raw_interfaces(self.interfaces@),
                endpoints_of(all, number) == endpoints_of(all.take(i as int), number),
            decreases i,
        {
            i = i - 1;
            assert(all.take(i + 1).drop_last() =~= all.take(i as int));
            assert(all.take(i + 1).last() == self.interfaces@[i as int]@);
            if self.interfaces[i].number == number {
                return Some(&self.interfaces[i].endpoints);
            }
        }
        None
    }

    /// The next node that has to be opened to claim an interface, after as many as are open: the
    /// node of each endpoint and then its status file.
    pub fn claim_interface(&self, interface_number: u8, opened: usize) -> (r: Result<
        Option<NodeToOpen>,
        Error,
    >)
        ensures
            match endpoints_of(raw_interfaces(self.interfaces@), interface_number) {
                None => r matches Err(e) && e.is(
                    ErrorKind::Other,
                    None,
                    "invalid interface number"@,
                ),
                Some(endpoints) => if opened / 2 >= endpoints.len() {
                    r matches Ok(None)
                } else {
                    let ep = endpoints[opened as int / 2];
                    let stat = opened % 2 == 1;
                    let name = if stat {
                        ep.basename() + "stat"@
                    } else {
                        ep.basename()
                    };
                    if self.paths.device_paths@.dom().contains(name) {
                        r matches Ok(Some(node)) && node.address == ep.address && node.direction
                            == ep.direction && node.path@ == self.paths.device_paths@[name]@
                    } else {
                        r matches Err(e) && e.is(
                            ErrorKind::Other,
                            None,
                            if stat {
                                "bad device stat"@
                            } else {
                                "bad device"@
                            },
                        )
                    }
                },
            },
    {
        let endpoints = match self.find_endpoints(interface_number) {
            Some(endpoints) => endpoints,
            None => return Err(Error::new(ErrorKind::Other, "invalid interface number")),
        };
        if opened / 2 >= endpoints.len() {
            return Ok(None);
        }
        let ep = endpoints[opened / 2];
        let stat: bool = opened % 2 == 1;
        let name = if stat {
            ep.stat_basename()
        } else {
            ep.device_basename()
        };
        match self.paths.device_paths.get(name.as_str()) {
            Some(path) => Ok(
                Some(
                    NodeToOpen {
                        address: ep.address,
                        direction: ep.direction,
                        path: String::from_str(path.as_str()),
                    },
                ),
            ),
            None => Err(
                if stat {
                    Error::new(ErrorKind::Other, "bad device stat")
                } else {
                    Error::new(ErrorKind::Other, "bad device")
                },
            ),
        }
    }

    /// The active configuration.
    pub fn active_configuration_value(&self) -> (r: u8)
        ensures
            r == self.active_config,
    {
        self.active_config
    }

    /// The configurations of the device.
    pub fn configuration_descriptors(&self) -> (r: Vec<&[u8]>)
        ensures
            r@.map_values(|c: &[u8]| c@) == descriptors::config_chain(self.config_descriptors@),
            r@.len() == descriptors::config_chain(self.config_descriptors@).len(),
    {
        descriptors::parse_concatenated_config_descriptors(self.config_descriptors.as_slice())
    }

    /// The configuration of a device cannot be changed through `ugen`.
    pub fn set_configuration(&self, _configuration: u8) -> (r: Result<(), Error>)
        ensures
            r matches Err(e) && e.is(
                ErrorKind::Unsupported,
                None,
                "set_configuration not supported"@,
            ),
    {
        Err(Error::new(ErrorKind::Unsupported, "set_configuration not supported"))
    }

    /// A device cannot be reset through `ugen`.
    pub fn reset(&self) -> (r: Result<(), Error>)
        ensures
            r matches Err(e) && e.is(ErrorKind::Unsupported, None, "reset not supported"@),
    {
        Err(Error::new(ErrorKind::Unsupported, "reset not supported"))
    }

    /// The speed of the device, which is not known.
    pub fn speed(&self) -> (r: Option<Speed>)
        ensures
            r is None,
    {
        None
    }
}

/// A claimed interface: which of its endpoints are in use, and for which of them the nodes are open.
#[derive(Debug)]
pub struct IllumosInterface {
    pub interface_number: u8,
    pub nodes: Vec<u8>,
    pub endpoints: EndpointBitSet,
    pub alt_setting: u8,
}

/// Whether an endpoint is the one with an address and a transfer type.
pub open spec fn has_endpoint(
    endpoints: Seq<RawEndpoint>,
    address: u8,
    transfer_type: EndpointType,
) -> bool {
    exists|k: int|
        0 <= k < endpoints.len() && (#[trigger] endpoints[k]).address == address
            && endpoints[k].transfer_type == transfer_type
}

impl IllumosInterface {
    /// An interface, once the nodes of the endpoints with these addresses were opened.
    pub fn new(interface_number: u8, nodes: Vec<u8>) -> (r: IllumosInterface)
        ensures
            r.interface_number == interface_number,
            r.nodes == nodes,
            r.endpoints@ == Set::<u8>::empty(),
            r.alt_setting == 0,
    {
        IllumosInterface {
            interface_number,
            nodes,
            endpoints: EndpointBitSet::default(),
            alt_setting: 0,
        }
    }

    /// The alternate setting cannot be changed through `ugen`.
    pub fn set_alt_setting(&self, _alt_setting: u8) -> (r: Result<(), Error>)
        ensures
            r matches Err(e) && e.is(
                ErrorKind::Unsupported,
                None,
                "set_alt_setting not supported"@,
            ),
    {
        Err(Error::new(ErrorKind::Unsupported, "set_alt_setting not supported"))
    }

    /// The halt of an endpoint cannot be cleared through `ugen`.
    pub fn clear_halt(&self) -> (r: Result<(), Error>)
        ensures
            r matches Err(e) && e.is(ErrorKind::Unsupported, None, "clear_halt not supported"@),
    {
        Err(Error::new(ErrorKind::Unsupported, "clear_halt not supported"))
    }

    /// Get the alternate setting.
    pub fn get_alt_setting(&self) -> (r: u8)
        ensures
            r == self.alt_setting,
    {
        self.alt_setting
    }

    /// Use an endpoint of the interface. It can be used only once at a time.
    pub fn endpoint(
        &mut self,
        device: &IllumosDevice,
        descriptor: descriptors::Endpoint<'_>,
        n: &ErrnoNumbers,
    ) -> (r: Result<Endpoint, Error>)
        ensures
            final(self).interface_number == old(self).interface_number,
            final(self).nodes == old(self).nodes,
            final(self).alt_setting == old(self).alt_setting,
            ({
                let address = descriptor@[2];
                let slot = crate::bitset::canonical(address);
                let known = endpoints_of(
                    raw_interfaces(device.interfaces@),
                    old(self).interface_number,
                );
                if old(self).endpoints@.contains(slot) {
                    r matches Err(e) && e.is(ErrorKind::Busy, None, "endpoint already in use"@)
                        && final(self).endpoints == old(self).endpoints
                } else if known is None {
                    r matches Err(e) && e.is(ErrorKind::Other, None, "invalid interface number"@)
                        && final(self).endpoints == old(self).endpoints
                } else if !has_endpoint(
                    known->0,
                    address,
                    EndpointType::of_attributes(descriptor@[3]),
                ) {
                    r matches Err(e) && e.is(ErrorKind::Other, None, "couldn't find the endpoint"@)
                        && final(self).endpoints == old(self).endpoints
                } else if !old(self).nodes@.contains(address) {
                    r matches Err(e) && e.is(ErrorKind::Other, None, "couldn't find ep address"@)
                        && final(self).endpoints@ == old(self).endpoints@.insert(slot)
                } else {
                    r matches Ok(endpoint) && endpoint@ == (EndpointModel {
                        system: System::Ugen { inval: n.inval as u32 },
                        address,
                        max_packet_size: (descriptors::le16(descriptor@[4], descriptor@[5])
                            % 2048) as nat,
                        queue: seq![],
                    }) && final(self).endpoints@ == old(self).endpoints@.insert(slot)
                }
            }),
    {
        let address: u8 = descriptor.address();
        let transfer_type = descriptor.transfer_type();
        let max_packet_size: usize = descriptor.max_packet_size();
        if self.endpoints.is_set(address) {
            return Err(Error::new(ErrorKind::Busy, "endpoint already in use"));
        }
        let known = match device.find_endpoints(self.interface_number) {
            Some(known) => known,
            None => return Err(Error::new(ErrorKind::Other, "invalid interface number")),
        };
        if !find_endpoint(known.as_slice(), address, transfer_type) {
            return Err(Error::new(ErrorKind::Other, "couldn't find the endpoint"));
        }
        self.endpoints.set(address);
        if !find_node(self.nodes.as_slice(), address) {
            return Err(Error::new(ErrorKind::Other, "couldn't find ep address"));
        }
        let system = System::Ugen { inval: n.inval as u32 };
        Ok(Endpoint::new(system, address, max_packet_size))
    }

    /// An endpoint is no longer in use.
    pub fn release_endpoint(&mut self, address: u8)
        ensures
            final(self).endpoints@ == old(self).endpoints@.remove(crate::bitset::canonical(address)),
            final(self).interface_number == old(self).interface_number,
            final(self).nodes == old(self).nodes,
            final(self).alt_setting == old(self).alt_setting,
    {
        self.endpoints.clear(address);
    }
}

fn find_endpoint(endpoints: &[RawEndpoint], address: u8, transfer_type: EndpointType) -> (r: bool)
    ensures
        r == has_endpoint(endpoints@, address, transfer_type),
{
    let mut i: usize = 0;
    while i < endpoints.len()
        invariant
            i <= endpoints@.len(),
            forall|k: int|
                0 <= k < i ==> !((#[trigger] endpoints@[k]).address == address
                    && endpoints@[k].transfer_type == transfer_type),
        decreases endpoints@.len() - i,
    {
        let ep = endpoints[i];
        if ep.address == address && ep.transfer_type == transfer_type {
            assert(endpoints@[i as int].address == address);
            return true;
        }
        i = i + 1;
    }
    false
}

fn find_node(nodes: &[u8], address: u8) -> (r: bool)
    ensures
        r == nodes@.contains(address),
{
    let mut i: usize = 0;
    while i < nodes.len()
        invariant
            i <= nodes@.len(),
            forall|k: int| 0 <= k < i ==> nodes@[k] != address,
        decreases nodes@.len() - i,
    {
        if nodes[i] == address {
            return true;
        }
        i = i + 1;
    }
    false
}

} // verus!

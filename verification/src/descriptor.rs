//! Reading the descriptors that a device returns during enumeration.
//!
//! Descriptor fields are little-endian, as USB has them.

use crate::protocol::InterfaceInfo;
use vstd::prelude::*;

verus! {

/// Descriptor type of a device descriptor.
pub const DESCRIPTOR_DEVICE: u8 = 1;

/// Descriptor type of a configuration descriptor.
pub const DESCRIPTOR_CONFIGURATION: u8 = 2;

/// Descriptor type of an interface descriptor.
pub const DESCRIPTOR_INTERFACE: u8 = 4;

/// Length of a device descriptor.
pub const DEVICE_DESCRIPTOR_SIZE: usize = 18;

/// Length of a configuration descriptor without what follows it.
pub const CONFIGURATION_DESCRIPTOR_SIZE: usize = 9;

/// Why an enumeration was given up.
#[derive(Clone, Copy, Debug, PartialEq, Eq, Structural)]
pub enum EnumerationError {
    /// The device returned fewer bytes than the descriptor of this type has.
    DataTooShort(u8),
    /// The length field of the device descriptor is below 18.
    DeviceLengthTooSmall,
    /// The device descriptor has another descriptor type.
    DeviceWrongType,
    /// The length field of the configuration descriptor is below 9.
    ConfigurationLengthTooSmall,
    /// The configuration descriptor has another descriptor type.
    ConfigurationWrongType,
    /// The total length of the configuration is not the length of what the
    /// device returned.
    TotalLengthMismatch,
    /// A descriptor inside the configuration runs past its end, or is
    /// shorter than its own header.
    Truncated,
    /// An interface descriptor is shorter than 9 bytes.
    InterfaceTooShort,
    /// A control transfer of the enumeration failed.
    TransferFailed,
    /// A completion arrived that no step of the enumeration waits for.
    Unexpected,
}

/// What the enumeration keeps of a device descriptor.
#[derive(Clone, Copy, Debug, PartialEq, Eq, Structural)]
pub struct DeviceDescriptor {
    pub device_class: u8,
    pub device_subclass: u8,
    pub device_protocol: u8,
    pub id_vendor: u16,
    pub id_product: u16,
    pub bcd_device: u16,
    pub num_configuration: u8,
}

/// What the enumeration keeps of a configuration descriptor.
#[derive(Clone, Copy, Debug, PartialEq, Eq, Structural)]
pub struct ConfigurationHeader {
    pub total_length: u16,
    pub num_interfaces: u8,
    pub configuration_value: u8,
}

/// The little-endian half-word at offset `at` of `s`.
pub open spec fn le_u16(s: Seq<u8>, at: int) -> u16 {
    (s[at] as int + s[at + 1] as int * 0x100) as u16
}

/// Reads the little-endian half-word at offset `at`.
fn read_u16_le(s: &[u8], at: usize) -> (v: u16)
    requires
        at + 2 <= s@.len(),
    ensures
        v == le_u16(s@, at as int),
{
    let lo: u16 = s[at] as u16;
    let hi: u16 = s[at + 1] as u16;
    lo + hi * 0x100
}

/// A device descriptor: length, type, and the fields behind them.
pub open spec fn device_descriptor(s: Seq<u8>) -> Result<DeviceDescriptor, EnumerationError> {
    if s.len() < 18 {
        Err(EnumerationError::DataTooShort(DESCRIPTOR_DEVICE))
    } else if s[0] < 18 {
        Err(EnumerationError::DeviceLengthTooSmall)
    } else if s[1] != DESCRIPTOR_DEVICE {
        Err(EnumerationError::DeviceWrongType)
    } else {
        Ok(
            DeviceDescriptor {
                device_class: s[4],
                device_subclass: s[5],
                device_protocol: s[6],
                id_vendor: le_u16(s, 8),
                id_product: le_u16(s, 10),
                bcd_device: le_u16(s, 12),
                num_configuration: s[17],
            },
        )
    }
}

/// Reads a device descriptor.
pub fn parse_device_descriptor(data: &[u8]) -> (r: Result<DeviceDescriptor, EnumerationError>)
    ensures
        r == device_descriptor(data@),
{
    if data.len() < DEVICE_DESCRIPTOR_SIZE {
        return Err(EnumerationError::DataTooShort(DESCRIPTOR_DEVICE));
    }
    if data[0] < 18 {
        return Err(EnumerationError::DeviceLengthTooSmall);
    }
    if data[1] != DESCRIPTOR_DEVICE {
        return Err(EnumerationError::DeviceWrongType);
    }
    Ok(
        DeviceDescriptor {
            device_class: data[4],
            device_subclass: data[5],
            device_protocol: data[6],
            id_vendor: read_u16_le(data, 8),
            id_product: read_u16_le(data, 10),
            bcd_device: read_u16_le(data, 12),
            num_configuration: data[17],
        },
    )
}

/// The nine bytes of a configuration descriptor.
pub open spec fn configuration_header(s: Seq<u8>) -> Result<ConfigurationHeader, EnumerationError> {
    if s.len() < 9 {
        Err(EnumerationError::DataTooShort(DESCRIPTOR_CONFIGURATION))
    } else if s[0] < 9 {
        Err(EnumerationError::ConfigurationLengthTooSmall)
    } else if s[1] != DESCRIPTOR_CONFIGURATION {
        Err(EnumerationError::ConfigurationWrongType)
    } else {
        Ok(
            ConfigurationHeader {
                total_length: le_u16(s, 2),
                num_interfaces: s[4],
                configuration_value: s[5],
            },
        )
    }
}

/// Reads the configuration descriptor at the start of `data`.
pub fn parse_configuration_header(data: &[u8]) -> (r: Result<
    ConfigurationHeader,
    EnumerationError,
>)
    ensures
        r == configuration_header(data@),
{
    if data.len() < CONFIGURATION_DESCRIPTOR_SIZE {
        return Err(EnumerationError::DataTooShort(DESCRIPTOR_CONFIGURATION));
    }
    if data[0] < 9 {
        return Err(EnumerationError::ConfigurationLengthTooSmall);
    }
    if data[1] != DESCRIPTOR_CONFIGURATION {
        return Err(EnumerationError::ConfigurationWrongType);
    }
    Ok(
        ConfigurationHeader {
            total_length: read_u16_le(data, 2),
            num_interfaces: data[4],
            configuration_value: data[5],
        },
    )
}

/// A result with `found` put before the interfaces that it holds.
pub open spec fn after(
    found: Seq<InterfaceInfo>,
    rest: Result<Seq<InterfaceInfo>, EnumerationError>,
) -> Result<Seq<InterfaceInfo>, EnumerationError> {
    match rest {
        Ok(more) => Ok(found + more),
        Err(e) => Err(e),
    }
}

/// The interfaces among the descriptors that lie in `s` from `pos` on. Each
/// descriptor starts with its length and its type; an interface descriptor
/// holds class, subclass and protocol in its bytes 5 to 7.
pub open spec fn interfaces_from(s: Seq<u8>, pos: int) -> Result<
    Seq<InterfaceInfo>,
    EnumerationError,
>
    decreases s.len() - pos,
{
    if pos < 0 || pos >= s.len() {
        Ok(Seq::empty())
    } else if s.len() - pos < 2 {
        Err(EnumerationError::Truncated)
    } else {
        let length = s[pos] as int;
        if length < 2 || length > s.len() - pos {
            Err(EnumerationError::Truncated)
        } else if s[pos + 1] == DESCRIPTOR_INTERFACE {
            if length < 9 {
                Err(EnumerationError::InterfaceTooShort)
            } else {
                after(
                    seq![
                        InterfaceInfo {
                            interface_class: s[pos + 5],
                            interface_subclass: s[pos + 6],
                            interface_protocol: s[pos + 7],
                        },
                    ],
                    interfaces_from(s, pos + length),
                )
            }
        } else {
            interfaces_from(s, pos + length)
        }
    }
}

/// The interfaces of a whole configuration: its total length must be the
/// length of `s`, and the interfaces are those behind its first nine bytes.
pub open spec fn configuration_interfaces(s: Seq<u8>) -> Result<
    Seq<InterfaceInfo>,
    EnumerationError,
> {
    match configuration_header(s) {
        Err(e) => Err(e),
        Ok(header) => if header.total_length != s.len() {
            Err(EnumerationError::TotalLengthMismatch)
        } else {
            interfaces_from(s, 9)
        },
    }
}

/// Reads the interfaces of a whole configuration.
pub fn parse_interfaces(data: &[u8]) -> (r: Result<Vec<InterfaceInfo>, EnumerationError>)
    ensures
        match configuration_interfaces(data@) {
            Ok(interfaces) => r matches Ok(found) && found@ == interfaces,
            Err(e) => r matches Err(f) && f == e,
        },
{
    let header = match parse_configuration_header(data) {
        Ok(header) => header,
        Err(e) => {
            return Err(e);
        },
    };
    if header.total_length as usize != data.len() {
        return Err(EnumerationError::TotalLengthMismatch);
    }
    let mut interfaces: Vec<InterfaceInfo> = Vec::new();
    let mut pos: usize = CONFIGURATION_DESCRIPTOR_SIZE;
    while pos < data.len()
        invariant
            9 <= pos <= data@.len(),
            configuration_interfaces(data@) == interfaces_from(data@, 9),
            interfaces_from(data@, 9) == after(interfaces@, interfaces_from(data@, pos as int)),
        decreases data@.len() - pos,
    {
        if data.len() - pos < 2 {
            return Err(EnumerationError::Truncated);
        }
        let length = data[pos] as usize;
        let dtype = data[pos + 1];
        if length < 2 || length > data.len() - pos {
            return Err(EnumerationError::Truncated);
        }
        if dtype == DESCRIPTOR_INTERFACE {
            if length < 9 {
                return Err(EnumerationError::InterfaceTooShort);
            }
            let found = InterfaceInfo {
                interface_class: data[pos + 5],
                interface_subclass: data[pos + 6],
                interface_protocol: data[pos + 7],
            };
            proof {
                let rest = interfaces_from(data@, pos + length);
                if let Ok(more) = rest {
                    assert(interfaces@.push(found) + more =~= interfaces@ + (seq![found] + more));
                }
            }
            interfaces.push(found);
        }
        pos = pos + length;
    }
    proof {
        assert(interfaces@ + Seq::<InterfaceInfo>::empty() =~= interfaces@);
    }
    Ok(interfaces)
}

} // verus!

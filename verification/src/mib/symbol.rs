//! Untyped symbol references into the resolved MIB.
//!
//! [`Symbol`] is a tagged union of all possible definition kinds. It wraps
//! the arena id for the definition.

use vstd::prelude::*;

use crate::mib::types::{
    CapabilityId, ComplianceId, GroupId, NodeId, NotificationId, ObjectId, TypeId,
};

verus! {

/// A reference to any resolved MIB definition. Each variant wraps the
/// corresponding arena id.
#[derive(Debug, Clone, Copy, PartialEq, Eq, Structural)]
pub enum Symbol {
    /// An OBJECT-TYPE definition.
    Object(ObjectId),
    /// A NOTIFICATION-TYPE or TRAP-TYPE definition.
    Notification(NotificationId),
    /// An OBJECT-GROUP or NOTIFICATION-GROUP definition.
    Group(GroupId),
    /// A MODULE-COMPLIANCE definition.
    Compliance(ComplianceId),
    /// An AGENT-CAPABILITIES definition.
    Capability(CapabilityId),
    /// A type or TEXTUAL-CONVENTION definition.
    Type(TypeId),
    /// A plain OID tree node with no entity attached.
    Node(NodeId),
}

impl Symbol {
    /// Return the [`ObjectId`] if this is an `Object` variant.
    pub fn as_object(&self) -> (r: Option<ObjectId>)
        ensures
            r == (match *self {
                Symbol::Object(id) => Some(id),
                _ => None,
            }),
    {
        match self {
            Symbol::Object(id) => Some(*id),
            _ => None,
        }
    }

    /// Return the [`NotificationId`] if this is a `Notification` variant.
    pub fn as_notification(&self) -> (r: Option<NotificationId>)
        ensures
            r == (match *self {
                Symbol::Notification(id) => Some(id),
                _ => None,
            }),
    {
        match self {
            Symbol::Notification(id) => Some(*id),
            _ => None,
        }
    }

    /// Return the [`GroupId`] if this is a `Group` variant.
    pub fn as_group(&self) -> (r: Option<GroupId>)
        ensures
            r == (match *self {
                Symbol::Group(id) => Some(id),
                _ => None,
            }),
    {
        match self {
            Symbol::Group(id) => Some(*id),
            _ => None,
        }
    }

    /// Return the [`ComplianceId`] if this is a `Compliance` variant.
    pub fn as_compliance(&self) -> (r: Option<ComplianceId>)
        ensures
            r == (match *self {
                Symbol::Compliance(id) => Some(id),
                _ => None,
            }),
    {
        match self {
            Symbol::Compliance(id) => Some(*id),
            _ => None,
        }
    }

    /// Return the [`CapabilityId`] if this is a `Capability` variant.
    pub fn as_capability(&self) -> (r: Option<CapabilityId>)
        ensures
            r == (match *self {
                Symbol::Capability(id) => Some(id),
                _ => None,
            }),
    {
        match self {
            Symbol::Capability(id) => Some(*id),
            _ => None,
        }
    }

    /// Return the [`TypeId`] if this is a `Type` variant.
    pub fn as_type(&self) -> (r: Option<TypeId>)
        ensures
            r == (match *self {
                Symbol::Type(id) => Some(id),
                _ => None,
            }),
    {
        match self {
            Symbol::Type(id) => Some(*id),
            _ => None,
        }
    }
}

} // verus!

//! Utilities for Android build metadata: reading identity and version
//! attributes from an application manifest (an XML document), deriving a
//! display name from the package identifier, and persisting build
//! identifiers into a Java-style properties file.

pub mod manifest;
pub mod props;
pub mod text;
pub mod xml;

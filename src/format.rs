use vstd::prelude::*;
use crate::builder::GunMacro;
use crate::render::{ahk_script, plaintext_of};

verus! {

/// The text formats a macro can be saved in.
#[derive(Debug, Clone, Copy, PartialEq, Eq, Structural)]
pub enum MacroFormat {
    Ahk,
    Plaintext,
}

impl MacroFormat {
    /// The file-dialog filter for files of this format.
    pub fn filters(&self) -> (r: &'static str)
        ensures
            r@ == (match *self {
                MacroFormat::Ahk => "AutoHotkey (*.ahk)"@,
                MacroFormat::Plaintext => "Text File (*.txt)"@,
            }),
    {
        match self {
            MacroFormat::Ahk => "AutoHotkey (*.ahk)",
            MacroFormat::Plaintext => "Text File (*.txt)",
        }
    }

    /// The name of the format as shown to the user.
    pub fn label(&self) -> (r: &'static str)
        ensures
            r@ == (match *self {
                MacroFormat::Ahk => "AutoHotkey"@,
                MacroFormat::Plaintext => "Plaintext"@,
            }),
    {
        match self {
            MacroFormat::Ahk => "AutoHotkey",
            MacroFormat::Plaintext => "Plaintext",
        }
    }

    /// The file extension given to a file of this format that has none.
    pub fn extension(&self) -> (r: &'static str)
        ensures
            r@ == (match *self {
                MacroFormat::Ahk => "ahk"@,
                MacroFormat::Plaintext => "txt"@,
            }),
    {
        match self {
            MacroFormat::Ahk => "ahk",
            MacroFormat::Plaintext => "txt",
        }
    }

    /// The macro rendered in this format.
    pub fn render(&self, m: &GunMacro) -> (r: String)
        ensures
            r@ == (match *self {
                MacroFormat::Ahk => ahk_script(m.inputs@),
                MacroFormat::Plaintext => plaintext_of(m.inputs@),
            }),
    {
        match self {
            MacroFormat::Ahk => m.to_ahk_script(),
            MacroFormat::Plaintext => m.to_plaintext(),
        }
    }
}

impl Default for MacroFormat {
    fn default() -> (r: MacroFormat)
        ensures
            r == MacroFormat::Ahk,
    {
        MacroFormat::Ahk
    }
}

} // verus!

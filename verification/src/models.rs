//! The aircraft row, its key, and what makes it fit to be stored.

use crate::downloader::FilterMap;
use vstd::prelude::*;

verus! {

/// The uppercase form that `str::to_uppercase` gives to a string.
pub uninterp spec fn uppercase(s: Seq<char>) -> Seq<char>;

/// Calls `str::to_uppercase`. The result is the uppercase equivalent of the
/// argument as the standard library defines it; nothing more is claimed of it
/// than that the same characters always give the same result.
#[verifier::external_body]
fn to_uppercase(s: &str) -> (upper: String)
    ensures
        upper@ == uppercase(s@),
{
    s.to_uppercase()
}

/// One row of the aircraft registry. Every column is kept as text; `icao24`
/// is the key by which a row is told from the others.
#[derive(Clone, Debug)]
pub struct Aircraft {
    pub icao24: String,
    pub timestamp: String,
    pub acars: String,
    pub adsb: String,
    pub built: String,
    pub category_description: String,
    pub country: String,
    pub engines: String,
    pub firstflightdate: String,
    pub first_seen: String,
    pub icao_aircraft_class: String,
    pub line_number: String,
    pub manufacturer_icao: String,
    pub manufacturer_name: String,
    pub model: String,
    pub modes: String,
    pub next_reg: String,
    pub operator: String,
    pub operator_callsign: String,
    pub operator_iata: String,
    pub operator_icao: String,
    pub owner: String,
    pub prev_reg: String,
    pub reg_until: String,
    pub registered: String,
    pub registration: String,
    pub sel_cal: String,
    pub serial_number: String,
    pub status: String,
    pub typecode: String,
    pub vdl: String,
}

/// What an [`Aircraft`] holds: its key, and its other columns in the order in
/// which the struct declares them.
pub struct AircraftView {
    pub icao24: Seq<char>,
    pub columns: Seq<Seq<char>>,
}

impl AircraftView {
    /// The key is not empty.
    pub open spec fn valid(self) -> bool {
        self.icao24.len() > 0
    }

    /// The same row with its key in uppercase.
    pub open spec fn normalized(self) -> AircraftView {
        AircraftView { icao24: uppercase(self.icao24), columns: self.columns }
    }

    /// The key is its own uppercase form.
    pub open spec fn has_uppercase_key(self) -> bool {
        uppercase(self.icao24) == self.icao24
    }
}

impl View for Aircraft {
    type V = AircraftView;

    open spec fn view(&self) -> AircraftView {
        AircraftView {
            icao24: self.icao24@,
            columns: seq![
                self.timestamp@,
                self.acars@,
                self.adsb@,
                self.built@,
                self.category_description@,
                self.country@,
                self.engines@,
                self.firstflightdate@,
                self.first_seen@,
                self.icao_aircraft_class@,
                self.line_number@,
                self.manufacturer_icao@,
                self.manufacturer_name@,
                self.model@,
                self.modes@,
                self.next_reg@,
                self.operator@,
                self.operator_callsign@,
                self.operator_iata@,
                self.operator_icao@,
                self.owner@,
                self.prev_reg@,
                self.reg_until@,
                self.registered@,
                self.registration@,
                self.sel_cal@,
                self.serial_number@,
                self.status@,
                self.typecode@,
                self.vdl@
            ],
        }
    }
}

impl Default for Aircraft {
    /// A row with every column empty.
    fn default() -> (row: Aircraft)
        ensures
            row@.icao24.len() == 0,
            row@.columns.len() == 30,
            forall|i: int| 0 <= i < 30 ==> (#[trigger] row@.columns[i]).len() == 0,
    {
        Aircraft {
            icao24: String::new(),
            timestamp: String::new(),
            acars: String::new(),
            adsb: String::new(),
            built: String::new(),
            category_description: String::new(),
            country: String::new(),
            engines: String::new(),
            firstflightdate: String::new(),
            first_seen: String::new(),
            icao_aircraft_class: String::new(),
            line_number: String::new(),
            manufacturer_icao: String::new(),
            manufacturer_name: String::new(),
            model: String::new(),
            modes: String::new(),
            next_reg: String::new(),
            operator: String::new(),
            operator_callsign: String::new(),
            operator_iata: String::new(),
            operator_icao: String::new(),
            owner: String::new(),
            prev_reg: String::new(),
            reg_until: String::new(),
            registered: String::new(),
            registration: String::new(),
            sel_cal: String::new(),
            serial_number: String::new(),
            status: String::new(),
            typecode: String::new(),
            vdl: String::new(),
        }
    }
}

impl Aircraft {
    /// Whether the row may be stored: its key is not empty.
    pub fn valid(&self) -> (ok: bool)
        ensures
            ok == self@.valid(),
    {
        !self.icao24.as_str().is_empty()
    }

    /// Puts the key in uppercase. The other columns stay as they are.
    pub fn normalize(&mut self)
        ensures
            final(self)@ == old(self)@.normalized(),
    {
        let upper = to_uppercase(self.icao24.as_str());
        self.icao24 = upper;
    }
}

impl FilterMap for Aircraft {
    open spec fn keeps(v: AircraftView) -> bool {
        v.valid()
    }

    open spec fn mapped(v: AircraftView) -> AircraftView {
        v.normalized()
    }

    fn filter(&self) -> (kept: bool) {
        self.valid()
    }

    fn map(&mut self) {
        self.normalize()
    }
}

/// Normalising a row whose key is already in uppercase changes nothing.
pub proof fn lemma_normalize_keeps_uppercase(v: AircraftView)
    requires
        v.has_uppercase_key(),
    ensures
        v.normalized() == v,
{
}

/// Normalising touches the key alone, and the key it leaves is the uppercase
/// form of the key it found.
pub proof fn lemma_normalize_key(v: AircraftView)
    ensures
        v.normalized().icao24 == uppercase(v.icao24),
        v.normalized().columns == v.columns,
{
}

} // verus!

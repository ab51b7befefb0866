use vstd::prelude::*;
use crate::profile::ScanProfile;
use crate::text::{
    chars_equal, chars_of, decimal, decimal_string, lemma_number_at, number_at, trim_chars, trimmed,
};

verus! {

/// The script up to the feeder setting: find the scanner, connect to it (three tries).
pub const SCRIPT_OPEN: &'static str = "\n        $ErrorActionPreference = 'Stop'\n        $deviceManager = New-Object -ComObject WIA.DeviceManager\n        $device = $deviceManager.DeviceInfos | Where-Object { $_.Type -eq 1 } | Where-Object {\n            $_.Properties('Name').Value -like '*Fujitsu*' -or\n            $_.Properties('Name').Value -like '*fi-8150*'\n        } | Select-Object -First 1\n\n        if (-not $device) { throw \"Tarayıcı bulunamadı!\" }\n\n        # Bağlan (3 deneme)\n        $scanner = $null\n        for ($attempt = 1; $attempt -le 3; $attempt++) {\n            try {\n                $scanner = $device.Connect()\n                break\n            } catch {\n                if ($attempt -eq 3) { throw \"Tarayıcı meşgul: $_\" }\n                Start-Sleep -Seconds 2\n            }\n        }\n\n        # Besleyici ayarı\n        try { $scanner.Properties(\"3088\").Value = ";

/// The script from the feeder setting to the colour mode: one sheet per transfer.
pub const SCRIPT_AFTER_FEEDER: &'static str = " } catch {}\n        # Tek sayfa tara\n        $scanner.Properties(\"3096\").Value = 1\n\n        $item = $scanner.Items[1]\n        $item.Properties(\"6146\").Value = ";

/// The script from the colour mode to the horizontal resolution.
pub const SCRIPT_AFTER_COLOR: &'static str = "\n        $item.Properties(\"6147\").Value = ";

/// The script from the horizontal to the vertical resolution.
pub const SCRIPT_AFTER_DPI_X: &'static str = "\n        $item.Properties(\"6148\").Value = ";

/// The script from the vertical resolution to the image path: transfer the image.
pub const SCRIPT_AFTER_DPI_Y: &'static str = "\n\n        $img = $item.Transfer()\n        $bmpFile = \"";

/// The script after the image path: save the image, release the scanner, report OK.
pub const SCRIPT_CLOSE: &'static str = "\"\n        if (Test-Path $bmpFile) { Remove-Item $bmpFile -Force }\n        $img.SaveFile($bmpFile)\n\n        # COM nesnelerini temizle\n        [System.Runtime.Interopservices.Marshal]::ReleaseComObject($img) | Out-Null\n        [System.Runtime.Interopservices.Marshal]::ReleaseComObject($item) | Out-Null\n        [System.Runtime.Interopservices.Marshal]::ReleaseComObject($scanner) | Out-Null\n        [System.Runtime.Interopservices.Marshal]::ReleaseComObject($deviceManager) | Out-Null\n        [System.GC]::Collect()\n        [System.GC]::WaitForPendingFinalizers()\n\n        Write-Output \"OK\"\n    ";

/// The feeder setting of the scanner: 5 scans both sides, 1 the front only.
pub open spec fn feeder_setting(duplex: bool) -> Seq<char> {
    if duplex {
        "5"@
    } else {
        "1"@
    }
}

/// The PowerShell script that scans one sheet through WIA into the image file at `path`.
pub open spec fn scan_script_text(duplex: bool, color_mode: u32, dpi: u32, path: Seq<char>) -> Seq<
    char,
> {
    SCRIPT_OPEN@ + feeder_setting(duplex) + SCRIPT_AFTER_FEEDER@ + decimal(color_mode as nat)
        + SCRIPT_AFTER_COLOR@ + decimal(dpi as nat) + SCRIPT_AFTER_DPI_X@ + decimal(dpi as nat)
        + SCRIPT_AFTER_DPI_Y@ + path + SCRIPT_CLOSE@
}

/// Position of the feeder setting in the script.
pub open spec fn feeder_at() -> int {
    SCRIPT_OPEN@.len() as int
}

/// Position of the colour mode in the script.
pub open spec fn colour_mode_at() -> int {
    (SCRIPT_OPEN@.len() + 1 + SCRIPT_AFTER_FEEDER@.len()) as int
}

/// Position of the horizontal resolution in the script, after the colour mode.
pub open spec fn dpi_x_at(color_mode: u32) -> int {
    colour_mode_at() + decimal(color_mode as nat).len() + SCRIPT_AFTER_COLOR@.len()
}

/// Position of the vertical resolution in the script, after both earlier numbers.
pub open spec fn dpi_y_at(color_mode: u32, dpi: u32) -> int {
    dpi_x_at(color_mode) + decimal(dpi as nat).len() + SCRIPT_AFTER_DPI_X@.len()
}

/// The scanner settings that the script writes read back as the profile's:
/// after `3088").Value = ` the feeder setting (5 for both sides, 1 for the
/// front), after `6146").Value = ` the colour mode, and after
/// `6147").Value = ` and `6148").Value = ` the resolution, the same both ways;
/// the script ends with the image path and the close.
pub proof fn law_script_settings(duplex: bool, color_mode: u32, dpi: u32, path: Seq<char>)
    ensures
        ({
            let s = scan_script_text(duplex, color_mode, dpi, path);
            &&& s.subrange(feeder_at() - 15, feeder_at()) == "3088\").Value = "@
            &&& s[feeder_at()] == if duplex { '5' } else { '1' }
            &&& s.subrange(colour_mode_at() - 15, colour_mode_at()) == "6146\").Value = "@
            &&& number_at(s, colour_mode_at()) == color_mode
            &&& s.subrange(dpi_x_at(color_mode) - 15, dpi_x_at(color_mode)) == "6147\").Value = "@
            &&& number_at(s, dpi_x_at(color_mode)) == dpi
            &&& s.subrange(dpi_y_at(color_mode, dpi) - 15, dpi_y_at(color_mode, dpi))
                == "6148\").Value = "@
            &&& number_at(s, dpi_y_at(color_mode, dpi)) == dpi
            &&& s.subrange(s.len() - SCRIPT_CLOSE@.len() - path.len(), s.len() - SCRIPT_CLOSE@.len())
                == path
        }),
{
    reveal_strlit("5");
    reveal_strlit("1");
    reveal_strlit("\n        $ErrorActionPreference = 'Stop'\n        $deviceManager = New-Object -ComObject WIA.DeviceManager\n        $device = $deviceManager.DeviceInfos | Where-Object { $_.Type -eq 1 } | Where-Object {\n            $_.Properties('Name').Value -like '*Fujitsu*' -or\n            $_.Properties('Name').Value -like '*fi-8150*'\n        } | Select-Object -First 1\n\n        if (-not $device) { throw \"Tarayıcı bulunamadı!\" }\n\n        # Bağlan (3 deneme)\n        $scanner = $null\n        for ($attempt = 1; $attempt -le 3; $attempt++) {\n            try {\n                $scanner = $device.Connect()\n                break\n            } catch {\n                if ($attempt -eq 3) { throw \"Tarayıcı meşgul: $_\" }\n                Start-Sleep -Seconds 2\n            }\n        }\n\n        # Besleyici ayarı\n        try { $scanner.Properties(\"3088\").Value = ");
    reveal_strlit(" } catch {}\n        # Tek sayfa tara\n        $scanner.Properties(\"3096\").Value = 1\n\n        $item = $scanner.Items[1]\n        $item.Properties(\"6146\").Value = ");
    reveal_strlit("\n        $item.Properties(\"6147\").Value = ");
    reveal_strlit("\n        $item.Properties(\"6148\").Value = ");
    reveal_strlit("\n\n        $img = $item.Transfer()\n        $bmpFile = \"");
    reveal_strlit("3088\").Value = ");
    reveal_strlit("6146\").Value = ");
    reveal_strlit("6147\").Value = ");
    reveal_strlit("6148\").Value = ");
    let f = feeder_setting(duplex);
    let dc = decimal(color_mode as nat);
    let dd = decimal(dpi as nat);
    let a0 = SCRIPT_OPEN@;
    let a1 = a0 + f + SCRIPT_AFTER_FEEDER@;
    let b1 = SCRIPT_AFTER_COLOR@ + dd + SCRIPT_AFTER_DPI_X@ + dd + SCRIPT_AFTER_DPI_Y@ + path
        + SCRIPT_CLOSE@;
    let s = scan_script_text(duplex, color_mode, dpi, path);
    assert(s =~= a1 + dc + b1);
    lemma_number_at(a1, color_mode as nat, b1);
    let a2 = a1 + dc + SCRIPT_AFTER_COLOR@;
    let b2 = SCRIPT_AFTER_DPI_X@ + dd + SCRIPT_AFTER_DPI_Y@ + path + SCRIPT_CLOSE@;
    assert(s =~= a2 + dd + b2);
    lemma_number_at(a2, dpi as nat, b2);
    let a3 = a2 + dd + SCRIPT_AFTER_DPI_X@;
    let b3 = SCRIPT_AFTER_DPI_Y@ + path + SCRIPT_CLOSE@;
    assert(s =~= a3 + dd + b3);
    lemma_number_at(a3, dpi as nat, b3);
    assert(s.subrange(feeder_at() - 15, feeder_at()) =~= a0.subrange(a0.len() - 15, a0.len() as int));
    assert(s[feeder_at()] == f[0]);
    assert(s.subrange(colour_mode_at() - 15, colour_mode_at()) =~= SCRIPT_AFTER_FEEDER@.subrange(
        SCRIPT_AFTER_FEEDER@.len() - 15,
        SCRIPT_AFTER_FEEDER@.len() as int,
    ));
    assert(s.subrange(dpi_x_at(color_mode) - 15, dpi_x_at(color_mode)) =~= SCRIPT_AFTER_COLOR@.subrange(
        SCRIPT_AFTER_COLOR@.len() - 15,
        SCRIPT_AFTER_COLOR@.len() as int,
    ));
    assert(s.subrange(dpi_y_at(color_mode, dpi) - 15, dpi_y_at(color_mode, dpi)) =~= SCRIPT_AFTER_DPI_X@.subrange(
        SCRIPT_AFTER_DPI_X@.len() - 15,
        SCRIPT_AFTER_DPI_X@.len() as int,
    ));
}

/// Writes the PowerShell script that scans one sheet with a profile's colour
/// mode and resolution, on one side or both, into the image file at `image_path`.
pub fn scan_script(profile: &ScanProfile, duplex: bool, image_path: &str) -> (s: String)
    ensures
        s@ == scan_script_text(duplex, profile.color_mode, profile.dpi, image_path@),
        s@[feeder_at()] == if duplex { '5' } else { '1' },
        number_at(s@, colour_mode_at()) == profile.color_mode,
        number_at(s@, dpi_x_at(profile.color_mode)) == profile.dpi,
        number_at(s@, dpi_y_at(profile.color_mode, profile.dpi)) == profile.dpi,
{
    proof {
        law_script_settings(duplex, profile.color_mode, profile.dpi, image_path@);
    }
    let mut s = String::from_str(SCRIPT_OPEN);
    if duplex {
        s.append("5");
    } else {
        s.append("1");
    }
    s.append(SCRIPT_AFTER_FEEDER);
    let color = decimal_string(profile.color_mode);
    s.append(color.as_str());
    s.append(SCRIPT_AFTER_COLOR);
    let dpi = decimal_string(profile.dpi);
    s.append(dpi.as_str());
    s.append(SCRIPT_AFTER_DPI_X);
    s.append(dpi.as_str());
    s.append(SCRIPT_AFTER_DPI_Y);
    s.append(image_path);
    s.append(SCRIPT_CLOSE);
    s
}

/// The name of the image file of page `page`.
pub fn page_file_name(page: u32) -> (s: String)
    ensures
        s@ == "scan_page_"@ + decimal(page as nat) + ".bmp"@,
{
    let mut s = String::from_str("scan_page_");
    let d = decimal_string(page);
    s.append(d.as_str());
    s.append(".bmp");
    s
}

/// How long the scanner script may run for one sheet, in nanoseconds.
pub const PAGE_TIMEOUT_NANOS: u128 = 60_000_000_000;

/// How long to wait between two looks at the running script, in milliseconds.
pub const POLL_INTERVAL_MILLIS: u64 = 500;

/// What to do while the scanner script of a sheet runs.
#[derive(Clone, Copy, PartialEq, Eq, Structural, Debug)]
pub enum WaitStep {
    /// The script has ended: read its result.
    Exited,
    /// The script still runs: look again after the poll interval.
    KeepWaiting,
    /// The script ran too long: stop it; the feeder is taken to be empty.
    GiveUp,
}

/// Decides the next move while waiting for the scanner script of a sheet.
pub fn wait_step(exited: bool, elapsed_nanos: u128) -> (r: WaitStep)
    ensures
        r == if exited {
            WaitStep::Exited
        } else if elapsed_nanos > PAGE_TIMEOUT_NANOS {
            WaitStep::GiveUp
        } else {
            WaitStep::KeepWaiting
        },
{
    if exited {
        WaitStep::Exited
    } else if elapsed_nanos > PAGE_TIMEOUT_NANOS {
        WaitStep::GiveUp
    } else {
        WaitStep::KeepWaiting
    }
}

/// What a finished run of the scanner script gave.
#[derive(Clone, Copy, PartialEq, Eq, Structural, Debug)]
pub enum PageRun {
    /// The sheet was scanned into the image file.
    Captured,
    /// No sheet: the feeder is empty or the run failed.
    NoPage,
}

/// Judges a finished run of the scanner script from its exit status, its
/// output and whether the image file exists: a sheet was scanned only where
/// the script succeeded, printed `OK` and wrote the file; an empty feeder and
/// every failure give no page.
pub fn classify_run(exit_success: bool, stdout: &str, image_exists: bool) -> (r: PageRun)
    ensures
        r == if exit_success && trimmed(stdout@) == "OK"@ && image_exists {
            PageRun::Captured
        } else {
            PageRun::NoPage
        },
{
    if !exit_success {
        return PageRun::NoPage;
    }
    let out = chars_of(stdout);
    let t = trim_chars(&out);
    let ok = chars_of("OK");
    if chars_equal(&t, &ok) && image_exists {
        PageRun::Captured
    } else {
        PageRun::NoPage
    }
}

} // verus!
